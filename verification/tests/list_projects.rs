use ccturn::json::{JsonMember, JsonNumber, JsonValue};
use ccturn::list::projects::{build_project_row, list_projects, newest_log, ProjectListing, ProjectRow};
use ccturn::list::sessions::ListError;
use ccturn::locator::CwdSource;

fn to_json(v: &serde_json::Value) -> JsonValue {
    match v {
        serde_json::Value::Null => JsonValue::Null,
        serde_json::Value::Bool(b) => JsonValue::Bool(*b),
        serde_json::Value::Number(n) => JsonValue::Number(JsonNumber {
            as_u64: n.as_u64(),
            text: n.to_string(),
        }),
        serde_json::Value::String(s) => JsonValue::Str(s.clone()),
        serde_json::Value::Array(a) => JsonValue::Array(a.iter().map(to_json).collect()),
        serde_json::Value::Object(m) => JsonValue::Object(
            m.iter()
                .map(|(k, v)| JsonMember {
                    key: k.clone(),
                    value: to_json(v),
                })
                .collect(),
        ),
    }
}

const MTIME_EPOCH: i64 = 1_700_000_000;

fn jsonl_with_cwd(session_id: &str, cwd: &str) -> String {
    format!(
        r#"{{"type":"user","cwd":"{cwd}","sessionId":"{session_id}","timestamp":"2026-05-19T09:00:00.000Z","uuid":"u1"}}
"#,
    )
}

fn jsonl_without_cwd(session_id: &str) -> String {
    format!(
        r#"{{"type":"file-history-snapshot","messageId":"{session_id}","snapshot":{{"messageId":"{session_id}","trackedFileBackups":{{}},"timestamp":"2026-05-19T09:00:00.000Z"}},"isSnapshotUpdate":false}}
"#,
    )
}

// A project directory's `.jsonl` logs: each with its body and its
// modification time (seconds after the anchor).
struct Project {
    encoded: String,
    logs: Vec<(String, i64)>,
}

fn project(encoded: &str, logs: Vec<(String, i64)>) -> Project {
    Project {
        encoded: encoded.to_string(),
        logs,
    }
}

// The row of a project as the command line builds it: modification times,
// the newest log's lines, then the library.
fn row_of(p: &Project) -> ProjectRow {
    let modified: Vec<Option<(i64, u32)>> = p
        .logs
        .iter()
        .map(|(_, offset)| Some((MTIME_EPOCH + offset, 0)))
        .collect();
    let newest_lines: Vec<Option<JsonValue>> = match newest_log(&modified) {
        Some(k) => p.logs[k]
            .0
            .lines()
            .map(|l| {
                serde_json::from_str::<serde_json::Value>(l.trim_end())
                    .ok()
                    .map(|v| to_json(&v))
            })
            .collect(),
        None => Vec::new(),
    };
    build_project_row(&p.encoded, &modified, &newest_lines)
}

fn listing(projects: &[Project]) -> ProjectListing {
    match list_projects("/tmp/log-root", true, projects.iter().map(row_of).collect()) {
        Ok(l) => l,
        Err(_) => panic!("listing must succeed"),
    }
}

fn row_by_encoded<'a>(listing: &'a ProjectListing, encoded: &str) -> &'a ProjectRow {
    listing
        .projects
        .iter()
        .find(|p| p.encoded_cwd == encoded)
        .unwrap_or_else(|| panic!("no row with encoded_cwd `{encoded}`"))
}

#[test]
fn list_projects_returns_err_when_log_root_missing() {
    let result = list_projects("/tmp/does-not-exist", false, Vec::new());
    assert!(matches!(result, Err(ListError::LogRootMissing { .. })));
}

#[test]
fn list_projects_empty_log_root_yields_empty_listing_with_log_root_set() {
    let l = listing(&[]);
    assert!(l.projects.is_empty());
    assert_eq!(l.log_root, "/tmp/log-root");
}

#[test]
fn list_projects_session_count_is_zero_for_empty_project_dir() {
    let l = listing(&[project("-tmp-empty", Vec::new())]);
    assert_eq!(row_by_encoded(&l, "-tmp-empty").session_count, 0);
}

#[test]
fn list_projects_encoded_cwd_is_directory_name_verbatim() {
    let encoded = "-Users-me-lil-lon-repo";
    let l = listing(&[project(
        encoded,
        vec![(jsonl_with_cwd("session-x", "/Users/me/lil-lon/repo"), 0)],
    )]);
    assert_eq!(row_by_encoded(&l, encoded).encoded_cwd, encoded);
}

#[test]
fn list_projects_latest_session_at_is_none_when_project_has_no_jsonl() {
    let l = listing(&[project("-tmp-empty", Vec::new())]);
    assert!(row_by_encoded(&l, "-tmp-empty").latest_session_at.is_none());
}

#[test]
fn list_projects_latest_session_at_picks_max_mtime_across_jsonl_children() {
    let l = listing(&[project(
        "-tmp-multi",
        vec![
            (jsonl_without_cwd("session-a"), 0),
            (jsonl_without_cwd("session-b"), 120),
            (jsonl_without_cwd("session-c"), 60),
        ],
    )]);
    let latest = row_by_encoded(&l, "-tmp-multi")
        .latest_session_at
        .expect("latest_session_at must be Some when at least one JSONL exists");
    assert_eq!(latest.0, MTIME_EPOCH + 120);
}

#[test]
fn list_projects_project_cwd_is_first_record_when_recent_jsonl_has_cwd() {
    let encoded = "-tmp-encoded-form";
    let ground_truth = "/tmp/actual-cwd-from-file";
    let l = listing(&[project(
        encoded,
        vec![(jsonl_with_cwd("session-d", ground_truth), 0)],
    )]);
    let row = row_by_encoded(&l, encoded);
    assert_eq!(row.project_cwd.as_deref(), Some(ground_truth));
    assert!(matches!(row.cwd_source, CwdSource::FirstRecord));
}

#[test]
fn list_projects_project_cwd_falls_back_to_reconstruction_when_no_jsonl_has_cwd() {
    let encoded = "-tmp-foo-bar";
    let l = listing(&[project(encoded, vec![(jsonl_without_cwd("session-e"), 0)])]);
    let row = row_by_encoded(&l, encoded);
    assert_eq!(row.project_cwd.as_deref(), Some("/tmp/foo/bar"));
    assert!(matches!(row.cwd_source, CwdSource::ReconstructedFromEncodedCwd));
}

#[test]
fn list_projects_project_cwd_reconstructed_when_project_dir_has_no_jsonl() {
    let encoded = "-tmp-empty-project";
    let l = listing(&[project(encoded, Vec::new())]);
    let row = row_by_encoded(&l, encoded);
    assert_eq!(row.project_cwd.as_deref(), Some("/tmp/empty/project"));
    assert!(matches!(row.cwd_source, CwdSource::ReconstructedFromEncodedCwd));
}

#[test]
fn list_projects_project_cwd_reads_from_most_recent_jsonl() {
    let encoded = "-tmp-two-sessions";
    let l = listing(&[project(
        encoded,
        vec![
            (jsonl_with_cwd("session-older", "/old/path"), 0),
            (jsonl_with_cwd("session-newer", "/new/path"), 120),
        ],
    )]);
    let row = row_by_encoded(&l, encoded);
    assert_eq!(row.project_cwd.as_deref(), Some("/new/path"));
    assert!(matches!(row.cwd_source, CwdSource::FirstRecord));
}

#[test]
fn list_projects_sorts_by_latest_desc_then_encoded_asc_with_nulls_last() {
    let l = listing(&[
        project("-tmp-aaa", vec![(jsonl_without_cwd("sa"), 120)]),
        project("-tmp-bbb", vec![(jsonl_without_cwd("sb"), 60)]),
        project("-tmp-empty-bbb", Vec::new()),
        project("-tmp-empty-aaa", Vec::new()),
    ]);
    let order: Vec<&str> = l.projects.iter().map(|r| r.encoded_cwd.as_str()).collect();
    assert_eq!(
        order,
        vec!["-tmp-aaa", "-tmp-bbb", "-tmp-empty-aaa", "-tmp-empty-bbb"]
    );
}
