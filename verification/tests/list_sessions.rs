use ccturn::json::{JsonMember, JsonNumber, JsonValue};
use ccturn::list::sessions::{
    list_error_message, list_sessions, ListError, SessionFile, SessionListing, SessionRow,
    SessionStatus,
};
use ccturn::locator::CwdSource;

// ---- Building log files in memory ----------------------------------------

fn to_json(v: &serde_json::Value) -> JsonValue {
    match v {
        serde_json::Value::Null => JsonValue::Null,
        serde_json::Value::Bool(b) => JsonValue::Bool(*b),
        serde_json::Value::Number(n) => JsonValue::Number(JsonNumber {
            as_u64: n.as_u64(),
            text: n.to_string(),
        }),
        serde_json::Value::String(s) => JsonValue::Str(s.clone()),
        serde_json::Value::Array(a) => JsonValue::Array(a.iter().map(to_json).collect()),
        serde_json::Value::Object(m) => JsonValue::Object(
            m.iter()
                .map(|(k, v)| JsonMember {
                    key: k.clone(),
                    value: to_json(v),
                })
                .collect(),
        ),
    }
}

fn parse_body(body: &str, trim: bool) -> Vec<Option<JsonValue>> {
    body.lines()
        .map(|line| {
            let text = if trim { line.trim_end() } else { line };
            serde_json::from_str::<serde_json::Value>(text)
                .ok()
                .map(|v| to_json(&v))
        })
        .collect()
}

fn session_file(session_id: &str, body: &str) -> SessionFile {
    SessionFile {
        session_id: session_id.to_string(),
        log_path: format!("/tmp/log/{session_id}.jsonl"),
        lines: Some(parse_body(body, false)),
        cwd_lines: parse_body(body, true),
        modified: None,
    }
}

fn list(
    encoded_cwd: &str,
    limit: Option<usize>,
    files: Vec<SessionFile>,
) -> Result<SessionListing, ListError> {
    list_sessions("/tmp/test-log-root", encoded_cwd, limit, true, &files)
}

// ---- JSONL record helpers (one record per call, terminated with `\n`) --

fn user_text_record(session_id: &str, ts: &str, uuid: &str, text: &str) -> String {
    format!(
        r#"{{"type":"user","uuid":"{uuid}","sessionId":"{session_id}","cwd":"/tmp/test","timestamp":"{ts}","message":{{"role":"user","content":{json_text}}}}}
"#,
        json_text = serde_json::to_string(text).expect("text must be JSON-encodable"),
    )
}

fn user_text_record_meta(session_id: &str, ts: &str, uuid: &str, text: &str) -> String {
    format!(
        r#"{{"type":"user","uuid":"{uuid}","sessionId":"{session_id}","cwd":"/tmp/test","timestamp":"{ts}","isMeta":true,"message":{{"role":"user","content":{json_text}}}}}
"#,
        json_text = serde_json::to_string(text).expect("text must be JSON-encodable"),
    )
}

fn user_text_record_skill_body(
    session_id: &str,
    ts: &str,
    uuid: &str,
    source_tool_use_id: &str,
    text: &str,
) -> String {
    format!(
        r#"{{"type":"user","uuid":"{uuid}","sessionId":"{session_id}","cwd":"/tmp/test","timestamp":"{ts}","sourceToolUseID":"{source_tool_use_id}","message":{{"role":"user","content":{json_text}}}}}
"#,
        json_text = serde_json::to_string(text).expect("text must be JSON-encodable"),
    )
}

fn assistant_tool_use_record(
    session_id: &str,
    ts: &str,
    uuid: &str,
    tool_use_id: &str,
    name: &str,
    input_json: &str,
) -> String {
    format!(
        r#"{{"type":"assistant","uuid":"{uuid}","sessionId":"{session_id}","cwd":"/tmp/test","timestamp":"{ts}","message":{{"role":"assistant","content":[{{"type":"tool_use","id":"{tool_use_id}","name":"{name}","input":{input_json}}}]}}}}
"#,
    )
}

fn user_tool_result_record(
    session_id: &str,
    ts: &str,
    uuid: &str,
    tool_use_id: &str,
    is_error: bool,
) -> String {
    format!(
        r#"{{"type":"user","uuid":"{uuid}","sessionId":"{session_id}","cwd":"/tmp/test","timestamp":"{ts}","message":{{"role":"user","content":[{{"type":"tool_result","tool_use_id":"{tool_use_id}","content":"result","is_error":{is_error}}}]}}}}
"#,
    )
}

fn user_task_result_record(
    session_id: &str,
    ts: &str,
    uuid: &str,
    tool_use_id: &str,
    agent_id: &str,
    agent_type: &str,
) -> String {
    format!(
        r#"{{"type":"user","uuid":"{uuid}","sessionId":"{session_id}","cwd":"/tmp/test","timestamp":"{ts}","message":{{"role":"user","content":[{{"type":"tool_result","tool_use_id":"{tool_use_id}","content":"explored","is_error":false}}]}},"toolUseResult":{{"status":"completed","agentId":"{agent_id}","agentType":"{agent_type}","content":[{{"type":"text","text":"explored"}}],"totalDurationMs":5000,"totalTokens":12000,"totalToolUseCount":3,"toolStats":{{"readCount":2,"searchCount":1,"bashCount":0,"editFileCount":0,"linesAdded":0,"linesRemoved":0,"otherToolCount":0}}}}}}
"#,
    )
}

fn ai_title_record(session_id: &str, ts: &str, uuid: &str, title: &str) -> String {
    format!(
        r#"{{"type":"ai-title","uuid":"{uuid}","sessionId":"{session_id}","cwd":"/tmp/test","timestamp":"{ts}","title":{json_title}}}
"#,
        json_title = serde_json::to_string(title).expect("title must be JSON-encodable"),
    )
}

fn file_history_snapshot_record(session_id: &str, ts: &str, uuid: &str) -> String {
    format!(
        r#"{{"type":"file-history-snapshot","uuid":"{uuid}","sessionId":"{session_id}","snapshot":{{"messageId":"{uuid}","trackedFileBackups":{{}},"timestamp":"{ts}"}},"isSnapshotUpdate":false}}
"#,
    )
}

fn row_by_session_id<'a>(listing: &'a SessionListing, session_id: &str) -> &'a SessionRow {
    listing
        .sessions
        .iter()
        .find(|r| r.session_id == session_id)
        .unwrap_or_else(|| panic!("no session row with id `{session_id}`"))
}

fn one_session(encoded_cwd: &str, sid: &str, body: &str) -> SessionListing {
    match list(encoded_cwd, None, vec![session_file(sid, body)]) {
        Ok(l) => l,
        Err(_) => panic!("listing must succeed"),
    }
}

// ---- List-level concerns -------------------------------------------------

#[test]
fn list_sessions_missing_project_returns_err() {
    let result = list_sessions("/tmp/root", "-tmp-does-not-exist", None, false, &Vec::new());
    match result {
        Err(e) => {
            assert!(matches!(e, ListError::ProjectNotFound { .. }));
            assert_eq!(
                list_error_message(&e),
                "project -tmp-does-not-exist not found under /tmp/root"
            );
        }
        Ok(_) => panic!("missing project must return Err"),
    }
}

#[test]
fn list_sessions_empty_project_yields_empty_sessions() {
    let listing = match list("-tmp-empty", None, Vec::new()) {
        Ok(l) => l,
        Err(_) => panic!("empty project must succeed"),
    };
    assert!(listing.sessions.is_empty());
    assert_eq!(listing.session_count, 0);
    assert_eq!(listing.encoded_cwd, "-tmp-empty");
}

#[test]
fn list_sessions_session_id_is_jsonl_stem() {
    let sid = "abc-123-uuid";
    let listing = one_session(
        "-tmp-stem",
        sid,
        &user_text_record(sid, "2026-05-19T09:00:00.000Z", "u1", "hello"),
    );
    assert_eq!(listing.sessions.len(), 1);
    assert_eq!(listing.sessions[0].session_id, sid);
}

#[test]
fn list_sessions_sorts_by_started_at_descending() {
    let files = vec![
        session_file(
            "s-old",
            &user_text_record("s-old", "2026-05-18T09:00:00.000Z", "u1", "old"),
        ),
        session_file(
            "s-mid",
            &user_text_record("s-mid", "2026-05-19T09:00:00.000Z", "u1", "mid"),
        ),
        session_file(
            "s-new",
            &user_text_record("s-new", "2026-05-20T09:00:00.000Z", "u1", "new"),
        ),
    ];
    let listing = match list("-tmp-sort", None, files) {
        Ok(l) => l,
        Err(_) => panic!("listing must succeed"),
    };
    let order: Vec<&str> = listing.sessions.iter().map(|r| r.session_id.as_str()).collect();
    assert_eq!(order, vec!["s-new", "s-mid", "s-old"]);
}

#[test]
fn list_sessions_sort_puts_none_started_at_last_with_session_id_tiebreak() {
    let files = vec![
        session_file(
            "s-dated",
            &user_text_record("s-dated", "2026-05-20T09:00:00.000Z", "u1", "x"),
        ),
        session_file("s-zzz", ""),
        session_file("s-aaa", ""),
    ];
    let listing = match list("-tmp-nulls", None, files) {
        Ok(l) => l,
        Err(_) => panic!("listing must succeed"),
    };
    let order: Vec<&str> = listing.sessions.iter().map(|r| r.session_id.as_str()).collect();
    assert_eq!(order, vec!["s-dated", "s-aaa", "s-zzz"]);
}

#[test]
fn list_sessions_limit_truncates_after_sort_and_session_count_is_pretruncation() {
    let mut files = Vec::new();
    for (sid, ts) in [
        ("s-1", "2026-05-18T09:00:00.000Z"),
        ("s-2", "2026-05-19T09:00:00.000Z"),
        ("s-3", "2026-05-20T09:00:00.000Z"),
        ("s-4", "2026-05-21T09:00:00.000Z"),
    ] {
        files.push(session_file(sid, &user_text_record(sid, ts, "u1", "x")));
    }
    let listing = match list("-tmp-limit", Some(2), files) {
        Ok(l) => l,
        Err(_) => panic!("listing must succeed"),
    };
    assert_eq!(listing.session_count, 4);
    assert_eq!(listing.sessions.len(), 2);
    let order: Vec<&str> = listing.sessions.iter().map(|r| r.session_id.as_str()).collect();
    assert_eq!(order, vec!["s-4", "s-3"]);
    assert_eq!(listing.limit, 2);
}

#[test]
fn list_sessions_no_limit_keeps_all_and_listing_limit_is_zero() {
    let mut files = Vec::new();
    for sid in ["s-a", "s-b", "s-c"] {
        files.push(session_file(
            sid,
            &user_text_record(sid, "2026-05-19T09:00:00.000Z", "u1", "x"),
        ));
    }
    let listing = match list("-tmp-nolimit", None, files) {
        Ok(l) => l,
        Err(_) => panic!("listing must succeed"),
    };
    assert_eq!(listing.sessions.len(), 3);
    assert_eq!(listing.limit, 0);
    assert_eq!(listing.session_count, 3);
}

#[test]
fn list_sessions_log_root_and_encoded_cwd_echo_inputs() {
    let listing = match list("-tmp-echo", None, Vec::new()) {
        Ok(l) => l,
        Err(_) => panic!("listing must succeed"),
    };
    assert_eq!(listing.log_root, "/tmp/test-log-root");
    assert_eq!(listing.encoded_cwd, "-tmp-echo");
}

#[test]
fn list_sessions_unreadable_jsonl_surfaces_status_unknown_not_propagated() {
    let mut broken = session_file(
        "s-broken",
        &user_text_record("s-broken", "2026-05-19T09:00:00.000Z", "u1", "hello"),
    );
    broken.lines = None;
    broken.cwd_lines = Vec::new();
    let ok = session_file(
        "s-ok",
        &user_text_record("s-ok", "2026-05-19T09:00:01.000Z", "u1", "ok"),
    );
    let listing = match list("-tmp-unreadable", None, vec![broken, ok]) {
        Ok(l) => l,
        Err(_) => panic!("per-session failures must NOT propagate as Err"),
    };
    assert_eq!(
        row_by_session_id(&listing, "s-broken").status,
        SessionStatus::Unknown
    );
    assert_eq!(row_by_session_id(&listing, "s-ok").status, SessionStatus::Success);
}

// ---- Status ladder ---------------------------------------------------------

#[test]
fn status_success_on_clean_session() {
    let sid = "s-clean";
    let body = String::new()
        + &user_text_record(sid, "2026-05-19T09:00:00.000Z", "u1", "hello")
        + &assistant_tool_use_record(
            sid,
            "2026-05-19T09:00:01.000Z",
            "u2",
            "tu-1",
            "Read",
            r#"{"path":"/tmp/x"}"#,
        )
        + &user_tool_result_record(sid, "2026-05-19T09:00:02.000Z", "u3", "tu-1", false);
    let listing = one_session("-tmp-status", sid, &body);
    let row = row_by_session_id(&listing, sid);
    assert_eq!(row.status, SessionStatus::Success);
    assert!(!row.last_tool_result_is_error);
    assert_eq!(row.open_tool_uses, 0);
}

#[test]
fn status_error_when_last_tool_result_is_error() {
    let sid = "s-err";
    let body = String::new()
        + &user_text_record(sid, "2026-05-19T09:00:00.000Z", "u1", "hello")
        + &assistant_tool_use_record(
            sid,
            "2026-05-19T09:00:01.000Z",
            "u2",
            "tu-err",
            "Bash",
            r#"{"command":"x"}"#,
        )
        + &user_tool_result_record(sid, "2026-05-19T09:00:02.000Z", "u3", "tu-err", true);
    let listing = one_session("-tmp-status", sid, &body);
    let row = row_by_session_id(&listing, sid);
    assert_eq!(row.status, SessionStatus::Error);
    assert!(row.last_tool_result_is_error);
    assert_eq!(row.open_tool_uses, 0);
}

#[test]
fn status_aborted_when_tool_use_dangles() {
    let sid = "s-abort";
    let body = String::new()
        + &user_text_record(sid, "2026-05-19T09:00:00.000Z", "u1", "hello")
        + &assistant_tool_use_record(
            sid,
            "2026-05-19T09:00:01.000Z",
            "u2",
            "tu-dangle",
            "Bash",
            r#"{"command":"sleep 9999"}"#,
        );
    let listing = one_session("-tmp-status", sid, &body);
    let row = row_by_session_id(&listing, sid);
    assert_eq!(row.status, SessionStatus::Aborted);
    assert!(row.open_tool_uses > 0);
}

#[test]
fn status_aborted_takes_precedence_over_error() {
    let sid = "s-precedence";
    let body = String::new()
        + &user_text_record(sid, "2026-05-19T09:00:00.000Z", "u1", "hi")
        + &assistant_tool_use_record(
            sid,
            "2026-05-19T09:00:01.000Z",
            "u2",
            "tu-err",
            "Bash",
            r#"{"command":"x"}"#,
        )
        + &user_tool_result_record(sid, "2026-05-19T09:00:02.000Z", "u3", "tu-err", true)
        + &assistant_tool_use_record(
            sid,
            "2026-05-19T09:00:03.000Z",
            "u4",
            "tu-dangle",
            "Bash",
            r#"{"command":"sleep 9999"}"#,
        );
    let listing = one_session("-tmp-status", sid, &body);
    assert_eq!(row_by_session_id(&listing, sid).status, SessionStatus::Aborted);
}

#[test]
fn status_success_when_intermediate_error_followed_by_success() {
    let sid = "s-recovery";
    let body = String::new()
        + &user_text_record(sid, "2026-05-19T09:00:00.000Z", "u1", "hi")
        + &assistant_tool_use_record(
            sid,
            "2026-05-19T09:00:01.000Z",
            "u2",
            "tu-bad",
            "Bash",
            r#"{"command":"x"}"#,
        )
        + &user_tool_result_record(sid, "2026-05-19T09:00:02.000Z", "u3", "tu-bad", true)
        + &assistant_tool_use_record(
            sid,
            "2026-05-19T09:00:03.000Z",
            "u4",
            "tu-good",
            "Bash",
            r#"{"command":"echo hi"}"#,
        )
        + &user_tool_result_record(sid, "2026-05-19T09:00:04.000Z", "u5", "tu-good", false);
    let listing = one_session("-tmp-status", sid, &body);
    let row = row_by_session_id(&listing, sid);
    assert_eq!(row.status, SessionStatus::Success);
    assert!(!row.last_tool_result_is_error);
}

// ---- Summary / excerpt fields ---------------------------------------------

#[test]
fn ai_title_recorded_verbatim_when_present() {
    let sid = "s-title";
    let body = String::new()
        + &user_text_record(sid, "2026-05-19T09:00:00.000Z", "u1", "hi")
        + &ai_title_record(sid, "2026-05-19T09:00:01.000Z", "u2", "My AI title");
    let listing = one_session("-tmp-title", sid, &body);
    assert_eq!(
        row_by_session_id(&listing, sid).ai_title.as_deref(),
        Some("My AI title")
    );
}

#[test]
fn ai_title_last_seen_wins_when_multiple_records() {
    let sid = "s-titles";
    let body = String::new()
        + &user_text_record(sid, "2026-05-19T09:00:00.000Z", "u1", "hi")
        + &ai_title_record(sid, "2026-05-19T09:00:01.000Z", "u2", "first title")
        + &ai_title_record(sid, "2026-05-19T09:00:02.000Z", "u3", "final title");
    let listing = one_session("-tmp-titles", sid, &body);
    assert_eq!(
        row_by_session_id(&listing, sid).ai_title.as_deref(),
        Some("final title")
    );
}

#[test]
fn first_user_message_recorded_when_no_ai_title() {
    let sid = "s-fum";
    let body = user_text_record(sid, "2026-05-19T09:00:00.000Z", "u1", "start working");
    let listing = one_session("-tmp-fum", sid, &body);
    let row = row_by_session_id(&listing, sid);
    assert!(row.ai_title.is_none());
    assert_eq!(row.first_user_message_excerpt.as_deref(), Some("start working"));
}

#[test]
fn excerpt_filter_skips_meta_records() {
    let sid = "s-meta";
    let body = String::new()
        + &user_text_record_meta(sid, "2026-05-19T09:00:00.000Z", "u1", "<meta-system>")
        + &user_text_record(sid, "2026-05-19T09:00:01.000Z", "u2", "real first message");
    let listing = one_session("-tmp-meta", sid, &body);
    assert_eq!(
        row_by_session_id(&listing, sid).first_user_message_excerpt.as_deref(),
        Some("real first message")
    );
}

#[test]
fn excerpt_filter_skips_skill_body_injection() {
    let sid = "s-skill";
    let body = String::new()
        + &user_text_record_skill_body(
            sid,
            "2026-05-19T09:00:00.000Z",
            "u1",
            "toolu_SKILL_BODY",
            "Launching skill: gh-cli",
        )
        + &user_text_record(sid, "2026-05-19T09:00:01.000Z", "u2", "actual user words");
    let listing = one_session("-tmp-skill", sid, &body);
    assert_eq!(
        row_by_session_id(&listing, sid).first_user_message_excerpt.as_deref(),
        Some("actual user words")
    );
}

#[test]
fn excerpt_filter_skips_slash_command_wrapper() {
    let sid = "s-slash";
    let body = String::new()
        + &user_text_record(
            sid,
            "2026-05-19T09:00:00.000Z",
            "u1",
            "<command-name>/loop</command-name><command-args>5m</command-args>",
        )
        + &user_text_record(sid, "2026-05-19T09:00:01.000Z", "u2", "now the real prompt");
    let listing = one_session("-tmp-slash", sid, &body);
    assert_eq!(
        row_by_session_id(&listing, sid).first_user_message_excerpt.as_deref(),
        Some("now the real prompt")
    );
}

#[test]
fn excerpt_truncated_to_80_chars_with_ellipsis() {
    let sid = "s-long";
    let long_message = "a".repeat(100);
    let body = user_text_record(sid, "2026-05-19T09:00:00.000Z", "u1", &long_message);
    let listing = one_session("-tmp-long", sid, &body);
    let excerpt = row_by_session_id(&listing, sid)
        .first_user_message_excerpt
        .as_deref()
        .expect("excerpt must be set");
    assert!(excerpt.chars().count() <= 80);
    assert!(excerpt.ends_with('…'));
}

#[test]
fn no_content_fields_when_jsonl_has_only_snapshot() {
    let sid = "s-nada";
    let body = file_history_snapshot_record(sid, "2026-05-19T09:00:00.000Z", "snap-1");
    let listing = one_session("-tmp-nada", sid, &body);
    let row = row_by_session_id(&listing, sid);
    assert!(row.ai_title.is_none());
    assert!(row.first_user_message_excerpt.is_none());
}

// ---- Subagent collection ---------------------------------------------------

#[test]
fn matched_task_emits_subagent_summary_with_payload_fields() {
    let sid = "s-task";
    let body = String::new()
        + &user_text_record(sid, "2026-05-19T09:00:00.000Z", "u1", "go")
        + &assistant_tool_use_record(
            sid,
            "2026-05-19T09:00:01.000Z",
            "u2",
            "tu-task",
            "Task",
            r#"{"subagent_type":"Explore","description":"Explore the codebase"}"#,
        )
        + &user_task_result_record(
            sid,
            "2026-05-19T09:00:02.000Z",
            "u3",
            "tu-task",
            "agent-abc-123",
            "Explore",
        );
    let listing = one_session("-tmp-task", sid, &body);
    let row = row_by_session_id(&listing, sid);
    assert_eq!(row.subagents.len(), 1);
    let sub = &row.subagents[0];
    assert_eq!(sub.agent_id, "agent-abc-123");
    assert_eq!(sub.agent_type, "Explore");
    assert_eq!(sub.tool_use_id, "tu-task");
    assert_eq!(sub.status, "completed");
    assert_eq!(sub.total_duration_ms, Some(5000));
    assert_eq!(sub.total_tokens, Some(12000));
    assert_eq!(sub.total_tool_use_count, Some(3));
}

#[test]
fn dangling_task_emits_aborted_subagent_with_null_numerics() {
    let sid = "s-task-dangle";
    let body = String::new()
        + &user_text_record(sid, "2026-05-19T09:00:00.000Z", "u1", "go")
        + &assistant_tool_use_record(
            sid,
            "2026-05-19T09:00:01.000Z",
            "u2",
            "tu-dangle",
            "Task",
            r#"{"subagent_type":"Plan","description":"Plan something"}"#,
        );
    let listing = one_session("-tmp-task-dangle", sid, &body);
    let row = row_by_session_id(&listing, sid);
    assert_eq!(row.subagents.len(), 1);
    let sub = &row.subagents[0];
    assert_eq!(sub.tool_use_id, "tu-dangle");
    assert_eq!(sub.status, "aborted");
    assert!(sub.total_duration_ms.is_none());
    assert!(sub.total_tokens.is_none());
    assert!(sub.total_tool_use_count.is_none());
    assert_eq!(row.status, SessionStatus::Aborted);
}

// ---- Further cases -----------------------------------------------------------

#[test]
fn subagents_keep_launch_order_with_finished_and_dangling_mixed() {
    let sid = "s-order";
    let body = String::new()
        + &assistant_tool_use_record(sid, "2026-05-19T09:00:01.000Z", "u1", "tu-a", "Task", "{}")
        + &assistant_tool_use_record(sid, "2026-05-19T09:00:02.000Z", "u2", "tu-b", "Task", "{}")
        + &user_task_result_record(sid, "2026-05-19T09:00:03.000Z", "u3", "tu-b", "agent-b", "Plan");
    let listing = one_session("-tmp-order", sid, &body);
    let row = row_by_session_id(&listing, sid);
    let ids: Vec<&str> = row.subagents.iter().map(|s| s.tool_use_id.as_str()).collect();
    assert_eq!(ids, vec!["tu-a", "tu-b"]);
    assert_eq!(row.subagents[0].status, "aborted");
    assert_eq!(row.subagents[1].status, "completed");
    let stats = row.subagents[1].tool_stats.as_ref().expect("stats");
    assert_eq!(stats.read_count, 2);
    assert_eq!(stats.search_count, 1);
}

#[test]
fn task_result_without_payload_has_unknown_status() {
    let sid = "s-nopayload";
    let body = String::new()
        + &assistant_tool_use_record(sid, "2026-05-19T09:00:01.000Z", "u1", "tu-a", "Task", "{}")
        + &user_tool_result_record(sid, "2026-05-19T09:00:02.000Z", "u2", "tu-a", false);
    let listing = one_session("-tmp-nopayload", sid, &body);
    let sub = &row_by_session_id(&listing, sid).subagents[0];
    assert_eq!(sub.status, "unknown");
    assert_eq!(sub.agent_id, "");
    assert!(sub.tool_stats.is_none());
    assert!(sub.total_tokens.is_none());
}

#[test]
fn excerpt_newlines_become_spaces_and_leading_whitespace_goes() {
    let sid = "s-nl";
    let body = user_text_record(sid, "2026-05-19T09:00:00.000Z", "u1", "\n  first line\nsecond");
    let listing = one_session("-tmp-nl", sid, &body);
    assert_eq!(
        row_by_session_id(&listing, sid).first_user_message_excerpt.as_deref(),
        Some("first line second")
    );
}

#[test]
fn excerpt_of_exactly_80_chars_is_kept_whole() {
    let sid = "s-80";
    let text = "b".repeat(80);
    let body = user_text_record(sid, "2026-05-19T09:00:00.000Z", "u1", &text);
    let listing = one_session("-tmp-80", sid, &body);
    assert_eq!(
        row_by_session_id(&listing, sid).first_user_message_excerpt.as_deref(),
        Some(text.as_str())
    );
}

#[test]
fn span_is_first_and_last_timestamp_and_unparseable_lines_are_skipped() {
    let sid = "s-span";
    let body = String::new()
        + &user_text_record(sid, "2026-05-19T09:00:00.000Z", "u1", "a")
        + "not json at all\n"
        + &user_text_record(sid, "2026-05-19T09:05:00.000Z", "u2", "b");
    let listing = one_session("-tmp-span", sid, &body);
    let row = row_by_session_id(&listing, sid);
    assert_eq!(row.started_at.as_deref(), Some("2026-05-19T09:00:00.000Z"));
    assert_eq!(row.ended_at.as_deref(), Some("2026-05-19T09:05:00.000Z"));
}

#[test]
fn project_cwd_comes_from_newest_log_else_reconstructed() {
    let mut older = session_file("s-old", &user_text_record("s-old", "2026-05-19T09:00:00.000Z", "u1", "x"));
    older.modified = Some((100, 0));
    older.cwd_lines = parse_body(r#"{"type":"user","cwd":"/older"}"#, true);
    let mut newer = session_file("s-new", &user_text_record("s-new", "2026-05-19T09:00:00.000Z", "u1", "x"));
    newer.modified = Some((200, 5));
    newer.cwd_lines = parse_body("{\"type\":\"snapshot\"}\n{\"cwd\":\"/newer\"}\n", true);
    let listing = match list("-tmp-x", None, vec![older, newer]) {
        Ok(l) => l,
        Err(_) => panic!("listing must succeed"),
    };
    assert_eq!(listing.project_cwd.as_deref(), Some("/newer"));
    assert_eq!(listing.cwd_source, CwdSource::FirstRecord);

    let mut undated = session_file("s-u", "");
    undated.modified = None;
    let listing = match list("-tmp-re-constructed", None, vec![undated]) {
        Ok(l) => l,
        Err(_) => panic!("listing must succeed"),
    };
    assert_eq!(listing.project_cwd.as_deref(), Some("/tmp/re/constructed"));
    assert_eq!(listing.cwd_source, CwdSource::ReconstructedFromEncodedCwd);
}

#[test]
fn equal_starts_in_other_offsets_tie_break_by_session_id() {
    let files = vec![
        session_file("s-b", &user_text_record("s-b", "2026-05-19T11:00:00+02:00", "u1", "x")),
        session_file("s-a", &user_text_record("s-a", "2026-05-19T09:00:00Z", "u1", "x")),
        session_file("s-c", &user_text_record("s-c", "not a time", "u1", "x")),
    ];
    let listing = match list("-tmp-tie", None, files) {
        Ok(l) => l,
        Err(_) => panic!("listing must succeed"),
    };
    let order: Vec<&str> = listing.sessions.iter().map(|r| r.session_id.as_str()).collect();
    assert_eq!(order, vec!["s-a", "s-b", "s-c"]);
}

#[test]
fn list_error_message_for_missing_log_root() {
    let e = ListError::LogRootMissing {
        log_root: "/nowhere".to_string(),
    };
    assert_eq!(list_error_message(&e), "log root /nowhere does not exist");
}
