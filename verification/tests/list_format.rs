use chrono::{TimeZone, Utc};

use ccturn::format::list_human::{
    format_projects, format_sessions_default, format_sessions_oneline, latest_times_representable,
    SubagentSidecar,
};
use ccturn::json::{JsonMember, JsonValue};
use ccturn::list::projects::{ProjectListing, ProjectRow};
use ccturn::list::sessions::{SessionListing, SessionRow, SessionStatus, SubagentSummary, ToolStats};
use ccturn::locator::CwdSource;

// ---- Timestamp helpers ------------------------------------------------------

fn ts(year: i32, month: u32, day: u32, hour: u32, min: u32) -> (i64, u32) {
    let dt = Utc
        .with_ymd_and_hms(year, month, day, hour, min, 0)
        .single()
        .expect("test timestamp must be valid");
    (dt.timestamp(), dt.timestamp_subsec_nanos())
}

fn ts_string(year: i32, month: u32, day: u32, hour: u32, min: u32) -> String {
    format!("{year:04}-{month:02}-{day:02}T{hour:02}:{min:02}:00.000Z")
}

// ---- Builders -----------------------------------------------------------------

fn project_row(
    encoded: &str,
    cwd: Option<&str>,
    cwd_source: CwdSource,
    session_count: usize,
    latest: Option<(i64, u32)>,
) -> ProjectRow {
    ProjectRow {
        encoded_cwd: encoded.to_string(),
        project_cwd: cwd.map(str::to_string),
        cwd_source,
        session_count,
        latest_session_at: latest,
    }
}

fn project_listing(log_root: &str, projects: Vec<ProjectRow>) -> ProjectListing {
    ProjectListing {
        log_root: log_root.to_string(),
        projects,
    }
}

fn empty_tool_stats() -> ToolStats {
    task_stats(0, 0, 0, 0)
}

fn task_stats(read: u64, search: u64, bash: u64, edit: u64) -> ToolStats {
    ToolStats {
        read_count: read,
        search_count: search,
        bash_count: bash,
        edit_file_count: edit,
        lines_added: 0,
        lines_removed: 0,
        other_tool_count: 0,
    }
}

#[allow(clippy::too_many_arguments)]
fn subagent(
    agent_id: &str,
    agent_type: &str,
    tool_use_id: &str,
    status: &str,
    duration: Option<u64>,
    tokens: Option<u64>,
    tool_use_count: Option<u64>,
    stats: Option<ToolStats>,
) -> SubagentSummary {
    SubagentSummary {
        agent_id: agent_id.to_string(),
        agent_type: agent_type.to_string(),
        tool_use_id: tool_use_id.to_string(),
        description: None,
        status: status.to_string(),
        total_duration_ms: duration,
        total_tokens: tokens,
        total_tool_use_count: tool_use_count,
        tool_stats: stats,
        log_path: None,
    }
}

#[allow(clippy::too_many_arguments)]
fn session_row(
    session_id: &str,
    log_path: &str,
    started_at: Option<String>,
    ended_at: Option<String>,
    status: SessionStatus,
    ai_title: Option<&str>,
    excerpt: Option<&str>,
    open_tool_uses: usize,
    last_tool_result_is_error: bool,
    subagents: Vec<SubagentSummary>,
) -> SessionRow {
    SessionRow {
        session_id: session_id.to_string(),
        log_path: log_path.to_string(),
        started_at,
        ended_at,
        status,
        ai_title: ai_title.map(str::to_string),
        first_user_message_excerpt: excerpt.map(str::to_string),
        open_tool_uses,
        last_tool_result_is_error,
        subagents,
    }
}

fn session_listing(
    encoded_cwd: &str,
    project_cwd: Option<&str>,
    cwd_source: CwdSource,
    session_count: usize,
    limit: usize,
    sessions: Vec<SessionRow>,
) -> SessionListing {
    SessionListing {
        log_root: "/tmp/log".to_string(),
        encoded_cwd: encoded_cwd.to_string(),
        project_cwd: project_cwd.map(str::to_string),
        cwd_source,
        session_count,
        limit,
        sessions,
    }
}

fn fixture_session(
    session_id: &str,
    started: String,
    status: SessionStatus,
    ai_title: Option<&str>,
) -> SessionRow {
    let log_path = format!("/tmp/log/{session_id}.jsonl");
    session_row(
        session_id,
        &log_path,
        Some(started.clone()),
        Some(started),
        status,
        ai_title,
        None,
        0,
        false,
        Vec::new(),
    )
}

// The sidecars of every subagent of every session: the meta JSON from
// `metas` (session id, agent id, description), where one is given, and the
// duration in seconds with one decimal.
fn sidecars(listing: &SessionListing, metas: &[(&str, &str, &str)]) -> Vec<Vec<SubagentSidecar>> {
    listing
        .sessions
        .iter()
        .map(|s| {
            s.subagents
                .iter()
                .map(|sub| SubagentSidecar {
                    meta: metas
                        .iter()
                        .find(|(sid, aid, _)| *sid == s.session_id && *aid == sub.agent_id)
                        .map(|(_, _, d)| {
                            JsonValue::Object(vec![JsonMember {
                                key: "description".to_string(),
                                value: JsonValue::Str(d.to_string()),
                            }])
                        }),
                    seconds: match sub.total_duration_ms {
                        Some(ms) => format!("{:.1}", ms as f64 / 1000.0),
                        None => String::new(),
                    },
                })
                .collect()
        })
        .collect()
}

fn render_default(listing: &SessionListing, metas: &[(&str, &str, &str)]) -> String {
    format_sessions_default(listing, &sidecars(listing, metas))
}

// =======================================================================
// format_projects
// =======================================================================

#[test]
fn format_projects_header_lists_log_root_and_count() {
    let listing = project_listing(
        "/tmp/test-log-root",
        vec![
            project_row("-tmp-a", Some("/tmp/a"), CwdSource::FirstRecord, 3, Some(ts(2026, 5, 22, 18, 30))),
            project_row("-tmp-b", Some("/tmp/b"), CwdSource::FirstRecord, 1, Some(ts(2026, 5, 21, 10, 15))),
        ],
    );
    let out = format_projects(&listing);
    let first_line = out.lines().next().expect("header line must exist");
    assert!(first_line.contains("/tmp/test-log-root"));
    assert!(first_line.contains("(2 projects)"));
}

#[test]
fn format_projects_empty_log_root_still_emits_header() {
    let listing = project_listing("/tmp/empty-log-root", vec![]);
    let out = format_projects(&listing);
    let first_line = out.lines().next().expect("header line must exist");
    assert!(first_line.contains("(0 projects)"));
}

#[test]
fn format_projects_row_session_count_singular_vs_plural() {
    let listing = project_listing(
        "/tmp/root",
        vec![
            project_row("-tmp-one", Some("/tmp/one"), CwdSource::FirstRecord, 1, Some(ts(2026, 5, 22, 18, 30))),
            project_row("-tmp-many", Some("/tmp/many"), CwdSource::FirstRecord, 42, Some(ts(2026, 5, 22, 18, 30))),
        ],
    );
    let out = format_projects(&listing);
    assert!(out.contains("1 session"));
    assert!(out.contains("42 sessions"));
}

#[test]
fn format_projects_latest_timestamp_iso_with_z_suffix() {
    let listing = project_listing(
        "/tmp/root",
        vec![project_row("-tmp-dated", Some("/tmp/dated"), CwdSource::FirstRecord, 2, Some(ts(2026, 5, 22, 18, 30)))],
    );
    let out = format_projects(&listing);
    assert!(out.contains("2026-05-22T18:30:00Z"));
}

#[test]
fn format_projects_latest_none_renders_word_none() {
    let listing = project_listing(
        "/tmp/root",
        vec![project_row("-tmp-empty", Some("/tmp/empty"), CwdSource::ReconstructedFromEncodedCwd, 0, None)],
    );
    let out = format_projects(&listing);
    assert!(out.contains("none"));
}

#[test]
fn format_projects_exact_layout() {
    let listing = project_listing(
        "/r",
        vec![
            project_row("-a", Some("/a"), CwdSource::FirstRecord, 1, Some(ts(2026, 5, 22, 18, 30))),
            project_row("-b", None, CwdSource::ReconstructedFromEncodedCwd, 0, None),
        ],
    );
    assert_eq!(
        format_projects(&listing),
        "Log root  /r   (2 projects)\n\n  -a   1 session    latest 2026-05-22T18:30:00Z   /a\n  -b   0 sessions   latest none                   \n"
    );
}

// =======================================================================
// format_sessions_default
// =======================================================================

#[test]
fn format_sessions_default_header_has_project_encoded_and_total() {
    let listing = session_listing(
        "-tmp-proj",
        Some("/tmp/proj"),
        CwdSource::FirstRecord,
        3,
        0,
        vec![fixture_session(
            "s-uuid-aaaaaaaa-aaaa-aaaa-aaaa-aaaaaaaaaaaa",
            ts_string(2026, 5, 22, 18, 30),
            SessionStatus::Success,
            Some("a title"),
        )],
    );
    let out = render_default(&listing, &[]);
    assert!(out.contains("/tmp/proj"));
    assert!(out.contains("-tmp-proj"));
    assert!(out.contains("3 total"));
}

#[test]
fn format_sessions_default_shows_showing_marker_only_when_truncated() {
    let untruncated = session_listing(
        "-tmp-proj",
        Some("/tmp/proj"),
        CwdSource::FirstRecord,
        1,
        0,
        vec![fixture_session("s-1", ts_string(2026, 5, 22, 18, 30), SessionStatus::Success, Some("t"))],
    );
    assert!(!render_default(&untruncated, &[]).contains("showing"));

    let truncated = session_listing(
        "-tmp-proj",
        Some("/tmp/proj"),
        CwdSource::FirstRecord,
        5,
        1,
        vec![fixture_session("s-1", ts_string(2026, 5, 22, 18, 30), SessionStatus::Success, Some("t"))],
    );
    assert!(render_default(&truncated, &[]).contains("(showing 1)"));
}

#[test]
fn format_sessions_default_block_carries_full_uuid_status_and_date() {
    let sid = "cbb44fe2-744e-4aee-a42d-fe87703da4b3";
    let listing = session_listing(
        "-tmp-proj",
        Some("/tmp/proj"),
        CwdSource::FirstRecord,
        1,
        0,
        vec![fixture_session(
            sid,
            ts_string(2026, 5, 22, 18, 30),
            SessionStatus::Success,
            Some("gh-cli skill orientation"),
        )],
    );
    let out = render_default(&listing, &[]);
    assert!(out.contains(&format!("session {sid}")));
    assert!(out.contains("Status: success"));
    assert!(out.contains("Date:") && out.contains("2026-05-22T18:30:00Z"));
    assert!(out.contains("gh-cli skill orientation"));
}

#[test]
fn format_sessions_default_subagent_block_only_when_subagents_present() {
    let listing = session_listing(
        "-tmp-proj",
        Some("/tmp/proj"),
        CwdSource::FirstRecord,
        1,
        0,
        vec![fixture_session("s-noagents", ts_string(2026, 5, 22, 18, 30), SessionStatus::Success, Some("a"))],
    );
    assert!(!render_default(&listing, &[]).contains("Subagents"));
}

#[test]
fn format_sessions_default_subagent_block_uses_box_drawing_chars() {
    let sid = "s-tree";
    let listing = session_listing(
        "-tmp-proj",
        Some("/tmp/proj"),
        CwdSource::FirstRecord,
        1,
        0,
        vec![session_row(
            sid,
            "/tmp/log/s-tree.jsonl",
            Some(ts_string(2026, 5, 22, 18, 30)),
            Some(ts_string(2026, 5, 22, 18, 30)),
            SessionStatus::Success,
            Some("two agents"),
            None,
            0,
            false,
            vec![
                subagent("agent-1", "Explore", "tu-1", "completed", Some(11_600), Some(20_792), Some(4), Some(task_stats(2, 1, 4, 0))),
                subagent("agent-2", "Plan", "tu-2", "completed", Some(7_200), Some(14_530), Some(12), Some(task_stats(12, 0, 0, 0))),
            ],
        )],
    );
    let out = render_default(
        &listing,
        &[
            (sid, "agent-1", "Explore the codebase"),
            (sid, "agent-2", "Phase 1 implementation plan"),
        ],
    );
    assert!(out.contains("Subagents (2):"));
    assert!(out.contains("├─"));
    assert!(out.contains("└─"));
    assert!(out.contains("Explore the codebase"));
    assert!(out.contains("Phase 1 implementation plan"));
}

#[test]
fn format_sessions_default_subagent_row_renders_duration_tokens_and_dominant_tool() {
    let sid = "s-cols";
    let listing = session_listing(
        "-tmp-proj",
        Some("/tmp/proj"),
        CwdSource::FirstRecord,
        1,
        0,
        vec![session_row(
            sid,
            "/tmp/log/s-cols.jsonl",
            Some(ts_string(2026, 5, 22, 18, 30)),
            Some(ts_string(2026, 5, 22, 18, 30)),
            SessionStatus::Success,
            Some("t"),
            None,
            0,
            false,
            vec![subagent("agent-1", "Explore", "tu-1", "completed", Some(11_600), Some(20_792), Some(4), Some(task_stats(0, 0, 4, 0)))],
        )],
    );
    let out = render_default(&listing, &[(sid, "agent-1", "desc")]);
    assert!(out.contains("11.6s"));
    assert!(out.contains("20792 tok"));
    assert!(out.contains("bash=4"));
}

#[test]
fn format_sessions_default_subagent_no_description_when_meta_missing() {
    let sid = "s-nodesc";
    let listing = session_listing(
        "-tmp-proj",
        Some("/tmp/proj"),
        CwdSource::FirstRecord,
        1,
        0,
        vec![session_row(
            sid,
            "/tmp/log/s-nodesc.jsonl",
            Some(ts_string(2026, 5, 22, 18, 30)),
            Some(ts_string(2026, 5, 22, 18, 30)),
            SessionStatus::Success,
            Some("t"),
            None,
            0,
            false,
            vec![subagent("agent-x", "Explore", "tu-x", "completed", Some(1000), Some(100), Some(1), Some(empty_tool_stats()))],
        )],
    );
    assert!(render_default(&listing, &[]).contains("(no description)"));
}

#[test]
fn format_sessions_default_summary_uses_ai_title_verbatim() {
    let listing = session_listing(
        "-tmp-proj",
        Some("/tmp/proj"),
        CwdSource::FirstRecord,
        1,
        0,
        vec![fixture_session("s-1", ts_string(2026, 5, 22, 18, 30), SessionStatus::Success, Some("My session title"))],
    );
    let out = render_default(&listing, &[]);
    assert!(out.contains("My session title"));
    assert!(!out.contains("(untitled)"));
}

#[test]
fn format_sessions_default_summary_wraps_untitled_excerpt_when_no_title() {
    let listing = session_listing(
        "-tmp-proj",
        Some("/tmp/proj"),
        CwdSource::FirstRecord,
        1,
        0,
        vec![session_row(
            "s-1",
            "/tmp/log/s-1.jsonl",
            Some(ts_string(2026, 5, 22, 18, 30)),
            Some(ts_string(2026, 5, 22, 18, 30)),
            SessionStatus::Success,
            None,
            Some("let's continue with phase 2"),
            0,
            false,
            Vec::new(),
        )],
    );
    assert!(render_default(&listing, &[]).contains(r#"(untitled) "let's continue with phase 2""#));
}

#[test]
fn format_sessions_default_summary_could_not_read_session_when_unknown() {
    let listing = session_listing(
        "-tmp-proj",
        Some("/tmp/proj"),
        CwdSource::FirstRecord,
        1,
        0,
        vec![session_row("s-unread", "/tmp/log/s-unread.jsonl", None, None, SessionStatus::Unknown, None, None, 0, false, Vec::new())],
    );
    assert!(render_default(&listing, &[]).contains("(could not read session)"));
}

#[test]
fn format_sessions_default_summary_no_content_when_all_fields_empty() {
    let listing = session_listing(
        "-tmp-proj",
        Some("/tmp/proj"),
        CwdSource::FirstRecord,
        1,
        0,
        vec![session_row(
            "s-blank",
            "/tmp/log/s-blank.jsonl",
            Some(ts_string(2026, 5, 22, 18, 30)),
            Some(ts_string(2026, 5, 22, 18, 30)),
            SessionStatus::Success,
            None,
            None,
            0,
            false,
            Vec::new(),
        )],
    );
    assert!(render_default(&listing, &[]).contains("(no content)"));
}

#[test]
fn format_sessions_default_exact_layout() {
    let listing = session_listing(
        "-p",
        Some("/p"),
        CwdSource::FirstRecord,
        2,
        0,
        vec![
            session_row(
                "s-1",
                "/l/s-1.jsonl",
                Some("2026-05-22T18:30:00.000Z".to_string()),
                None,
                SessionStatus::Success,
                Some("title one"),
                None,
                0,
                false,
                vec![
                    subagent("a1", "Explore", "t1", "completed", Some(1_250), Some(10), None, Some(task_stats(3, 0, 3, 0))),
                    subagent("a2", "Plan", "t2", "aborted", None, None, None, None),
                ],
            ),
            session_row("s-2", "/l/s-2.jsonl", None, None, SessionStatus::Unknown, None, None, 0, false, Vec::new()),
        ],
    );
    let long = "d".repeat(100);
    let out = render_default(&listing, &[("s-1", "a1", long.as_str())]);
    let expected_desc = format!("{}…", "d".repeat(79));
    let seconds = format!("{:.1}", 1.25f64);
    let expected = [
        "Project   /p\n".to_string(),
        "Encoded   -p\n".to_string(),
        "Sessions  2 total\n".to_string(),
        "\n".to_string(),
        "session s-1\n".to_string(),
        "Status: success\n".to_string(),
        "Date:   2026-05-22T18:30:00Z\n".to_string(),
        "\n".to_string(),
        "    title one\n".to_string(),
        "\n".to_string(),
        "    Subagents (2):\n".to_string(),
        format!("      ├─ Explore a1   completed   {seconds}s   10 tok   bash=3\n"),
        format!("      │     {expected_desc}\n"),
        format!("      └─ Plan a2      aborted     {}-    - tok\n", " ".repeat(seconds.len())),
        "            (no description)\n".to_string(),
        "\n".to_string(),
        "session s-2\n".to_string(),
        "Status: unknown\n".to_string(),
        "Date:   \n".to_string(),
        "\n".to_string(),
        "    (could not read session)\n".to_string(),
    ]
    .concat();
    assert_eq!(out, expected);
}

// =======================================================================
// format_sessions_oneline
// =======================================================================

#[test]
fn format_sessions_oneline_uuid_truncated_to_eight_chars() {
    let sid = "cbb44fe2-744e-4aee-a42d-fe87703da4b3";
    let listing = session_listing(
        "-tmp-proj",
        Some("/tmp/proj"),
        CwdSource::FirstRecord,
        1,
        0,
        vec![fixture_session(sid, ts_string(2026, 5, 22, 18, 30), SessionStatus::Success, Some("gh-cli skill orientation"))],
    );
    let out = format_sessions_oneline(&listing);
    assert!(out.contains("cbb44fe2"));
    for line in out.lines().filter(|l| {
        !l.starts_with("Project") && !l.starts_with("Encoded") && !l.starts_with("Sessions") && !l.is_empty()
    }) {
        assert!(!line.contains(sid), "row must not carry the full id: {line}");
    }
}

#[test]
fn format_sessions_oneline_subagent_count_tag_when_nonzero() {
    let listing = session_listing(
        "-tmp-proj",
        Some("/tmp/proj"),
        CwdSource::FirstRecord,
        1,
        0,
        vec![session_row(
            "abcd1234-0000-0000-0000-000000000000",
            "/tmp/log/abcd.jsonl",
            Some(ts_string(2026, 5, 22, 18, 30)),
            Some(ts_string(2026, 5, 22, 18, 30)),
            SessionStatus::Success,
            Some("t"),
            None,
            0,
            false,
            vec![
                subagent("a1", "Explore", "tu1", "completed", Some(1000), Some(100), Some(1), Some(empty_tool_stats())),
                subagent("a2", "Plan", "tu2", "completed", Some(1000), Some(100), Some(1), Some(empty_tool_stats())),
                subagent("a3", "general-purpose", "tu3", "completed", Some(1000), Some(100), Some(1), Some(empty_tool_stats())),
            ],
        )],
    );
    assert!(format_sessions_oneline(&listing).contains("[3 subagents]"));
}

#[test]
fn format_sessions_oneline_singular_subagent_uses_singular_noun() {
    let listing = session_listing(
        "-tmp-proj",
        Some("/tmp/proj"),
        CwdSource::FirstRecord,
        1,
        0,
        vec![session_row(
            "aaaa1111-0000-0000-0000-000000000000",
            "/tmp/log/aaaa.jsonl",
            Some(ts_string(2026, 5, 22, 18, 30)),
            Some(ts_string(2026, 5, 22, 18, 30)),
            SessionStatus::Aborted,
            None,
            Some("a single subagent here"),
            0,
            false,
            vec![subagent("a1", "Explore", "tu1", "aborted", None, None, None, None)],
        )],
    );
    let out = format_sessions_oneline(&listing);
    assert!(out.contains("[1 subagent]"));
    assert!(!out.contains("[1 subagents]"));
}

#[test]
fn format_sessions_oneline_no_tag_when_zero_subagents() {
    let listing = session_listing(
        "-tmp-proj",
        Some("/tmp/proj"),
        CwdSource::FirstRecord,
        1,
        0,
        vec![fixture_session(
            "ebd6c5f1-0000-0000-0000-000000000000",
            ts_string(2026, 5, 22, 18, 30),
            SessionStatus::Success,
            Some("wire ccturn spin subcommand"),
        )],
    );
    assert!(!format_sessions_oneline(&listing).contains("subagent"));
}

#[test]
fn format_sessions_oneline_drops_subagent_tree() {
    let listing = session_listing(
        "-tmp-proj",
        Some("/tmp/proj"),
        CwdSource::FirstRecord,
        1,
        0,
        vec![session_row(
            "s-tree",
            "/tmp/log/s-tree.jsonl",
            Some(ts_string(2026, 5, 22, 18, 30)),
            Some(ts_string(2026, 5, 22, 18, 30)),
            SessionStatus::Success,
            Some("t"),
            None,
            0,
            false,
            vec![subagent("agent-1", "Explore", "tu1", "completed", Some(1000), Some(100), Some(1), Some(empty_tool_stats()))],
        )],
    );
    let out = format_sessions_oneline(&listing);
    assert!(!out.contains("├─") && !out.contains("└─"));
    assert!(!out.contains("this description must not appear"));
}

#[test]
fn format_sessions_oneline_exact_layout() {
    let listing = session_listing(
        "-p",
        None,
        CwdSource::ReconstructedFromEncodedCwd,
        3,
        2,
        vec![
            session_row("0123456789", "/l/a.jsonl", Some("2026-05-22T18:30:00+02:00".to_string()), None, SessionStatus::Error, Some(""), Some("why"), 0, true, Vec::new()),
            session_row("ab", "/l/b.jsonl", Some("garbage".to_string()), None, SessionStatus::Success, None, None, 0, false, Vec::new()),
        ],
    );
    assert_eq!(
        format_sessions_oneline(&listing),
        "Project   \nEncoded   -p\nSessions  3 total   (showing 2)\n\n\
01234567  error     2026-05-22T18:30:00Z   (untitled) \"why\"\n\
ab  success      (no content)\n"
    );
}

#[test]
fn subagent_tree_columns_are_aligned() {
    let listing = session_listing(
        "-Users-you-cc-turntable",
        Some("/Users/you/cc-turntable"),
        CwdSource::FirstRecord,
        1,
        1,
        vec![session_row(
            "cbb44fe2-744e-4aee-a42d-fe87703da4b3",
            "/l/cbb44fe2.jsonl",
            Some("2026-05-22T18:30:00Z".to_string()),
            None,
            SessionStatus::Success,
            Some("gh-cli skill orientation"),
            None,
            0,
            false,
            vec![
                subagent(
                    "agent-abc-123",
                    "Explore",
                    "t1",
                    "completed",
                    Some(11_600),
                    Some(20_792),
                    None,
                    Some(task_stats(0, 0, 4, 0)),
                ),
                subagent(
                    "agent-def-456",
                    "Plan",
                    "t2",
                    "completed",
                    Some(7_200),
                    Some(14_530),
                    None,
                    Some(task_stats(12, 0, 0, 0)),
                ),
            ],
        )],
    );
    let out = render_default(
        &listing,
        &[
            ("cbb44fe2-744e-4aee-a42d-fe87703da4b3", "agent-abc-123", "Verify Skill and Task tool fields in JSONL"),
            ("cbb44fe2-744e-4aee-a42d-fe87703da4b3", "agent-def-456", "Phase 1 implementation plan"),
        ],
    );
    let tree = [
        "    Subagents (2):\n",
        "      ├─ Explore agent-abc-123   completed   11.6s   20792 tok   bash=4\n",
        "      │     Verify Skill and Task tool fields in JSONL\n",
        "      └─ Plan agent-def-456      completed    7.2s   14530 tok   read=12\n",
        "            Phase 1 implementation plan\n",
    ]
    .concat();
    assert!(out.ends_with(&tree), "got:\n{out}");
}

#[test]
fn project_columns_are_aligned() {
    let listing = project_listing(
        "/Users/you/.log/projects",
        vec![
            project_row(
                "-Users-you-cc-turntable",
                Some("/Users/you/cc-turntable"),
                CwdSource::FirstRecord,
                42,
                Some(ts(2026, 5, 22, 18, 30)),
            ),
            project_row(
                "-Users-you-other-repo",
                Some("/Users/you/other-repo"),
                CwdSource::FirstRecord,
                3,
                Some(ts(2026, 5, 21, 10, 15)),
            ),
            project_row("-tmp-scratch", Some("/tmp/scratch"), CwdSource::ReconstructedFromEncodedCwd, 0, None),
        ],
    );
    let expected = [
        "Log root  /Users/you/.log/projects   (3 projects)\n",
        "\n",
        "  -Users-you-cc-turntable   42 sessions   latest 2026-05-22T18:30:00Z   /Users/you/cc-turntable\n",
        "  -Users-you-other-repo      3 sessions   latest 2026-05-21T10:15:00Z   /Users/you/other-repo\n",
        "  -tmp-scratch               0 sessions   latest none                   /tmp/scratch\n",
    ]
    .concat();
    assert_eq!(format_projects(&listing), expected);
}

#[test]
fn project_latest_times_across_the_whole_calendar_range() {
    let far = 8_200_000_000_000i64;
    let listing = project_listing(
        "/r",
        vec![project_row("-far", None, CwdSource::ReconstructedFromEncodedCwd, 1, Some((far, 0)))],
    );
    assert!(latest_times_representable(&listing));
    let rendered = chrono::DateTime::from_timestamp(far, 0)
        .unwrap()
        .format("%Y-%m-%dT%H:%M:%SZ")
        .to_string();
    assert!(format_projects(&listing).contains(&rendered));

    let last = 8_210_266_876_799i64;
    let first = -8_334_601_228_800i64;
    for (secs, ok) in [(last, true), (last + 1, false), (first, true), (first - 1, false)] {
        let listing = project_listing(
            "/r",
            vec![project_row("-x", None, CwdSource::ReconstructedFromEncodedCwd, 1, Some((secs, 0)))],
        );
        assert_eq!(latest_times_representable(&listing), ok, "{secs}");
        assert_eq!(chrono::DateTime::from_timestamp(secs, 0).is_some(), ok, "{secs}");
    }
    let leap = project_listing(
        "/r",
        vec![project_row("-x", None, CwdSource::ReconstructedFromEncodedCwd, 1, Some((59, 1_500_000_000)))],
    );
    assert!(latest_times_representable(&leap));
    let not_leap = project_listing(
        "/r",
        vec![project_row("-x", None, CwdSource::ReconstructedFromEncodedCwd, 1, Some((58, 1_500_000_000)))],
    );
    assert!(!latest_times_representable(&not_leap));
}
