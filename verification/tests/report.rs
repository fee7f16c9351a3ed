use ccturn::extract::errors::{extract_errors, ErrorCategory};
use ccturn::extract::interventions::{extract_interventions, InterventionKind};
use ccturn::extract::skills::extract_skills;
use ccturn::extract::subagents::SubagentFiles;
use ccturn::extract::tools::extract_tools;
use ccturn::format::human::{
    category_name, fmt_duration, fmt_span, fmt_time, fmt_timestamp, format_human, pluralize,
};
use ccturn::json::{JsonMember, JsonNumber, JsonValue};
use ccturn::locator::{CwdSource, ResolvedSession};
use ccturn::parser::record::JsonlRecord;
use ccturn::report::{build_report, parse_lines, SessionReport};

fn to_json(v: &serde_json::Value) -> JsonValue {
    match v {
        serde_json::Value::Null => JsonValue::Null,
        serde_json::Value::Bool(b) => JsonValue::Bool(*b),
        serde_json::Value::Number(n) => JsonValue::Number(JsonNumber {
            as_u64: n.as_u64(),
            text: n.to_string(),
        }),
        serde_json::Value::String(s) => JsonValue::Str(s.clone()),
        serde_json::Value::Array(a) => JsonValue::Array(a.iter().map(to_json).collect()),
        serde_json::Value::Object(m) => JsonValue::Object(
            m.iter()
                .map(|(k, v)| JsonMember {
                    key: k.clone(),
                    value: to_json(v),
                })
                .collect(),
        ),
    }
}

fn lines_of(body: &str) -> Vec<Option<JsonValue>> {
    body.lines()
        .map(|l| serde_json::from_str::<serde_json::Value>(l).ok().map(|v| to_json(&v)))
        .collect()
}

fn records_of(body: &str) -> Vec<JsonlRecord> {
    parse_lines(&lines_of(&body)).records
}

fn resolved() -> ResolvedSession {
    ResolvedSession {
        jsonl_path: "/tmp/p/sess.jsonl".to_string(),
        subagents_dir: "/tmp/p/sess/subagents".to_string(),
        project_cwd_encoded: "-tmp-p".to_string(),
        project_cwd: "/tmp/p".to_string(),
        cwd_source: CwdSource::FirstRecord,
    }
}

fn session() -> String {
    [
    r#"{"type":"user","uuid":"u1","timestamp":"2026-05-19T09:00:00.000000+00:00","message":{"role":"user","content":"start"}}"#,
    "\n",
    r#"{"type":"assistant","uuid":"a1","timestamp":"2026-05-19T09:00:01.000000+00:00","message":{"role":"assistant","content":[{"type":"tool_use","id":"t-skill","name":"Skill","input":{"skill":"gh-cli","args":"list prs"}}]}}"#,
    "\n",
    r#"{"type":"user","uuid":"u2","timestamp":"2026-05-19T09:00:02.000000+00:00","message":{"role":"user","content":[{"type":"tool_result","tool_use_id":"t-skill","content":"Launching skill: gh-cli"}]}}"#,
    "\n",
    r#"{"type":"assistant","uuid":"a2","attributionSkill":"gh-cli","timestamp":"2026-05-19T09:00:03.000000+00:00","message":{"role":"assistant","content":[{"type":"tool_use","id":"t-b1","name":"Bash","input":{"command":"gh pr list"}}]}}"#,
    "\n",
    r#"{"type":"user","uuid":"u3","attributionSkill":"gh-cli","timestamp":"2026-05-19T09:00:04.000000+00:00","message":{"role":"user","content":[{"type":"tool_result","tool_use_id":"t-b1","content":"exit 1","is_error":true}]}}"#,
    "\n",
    r#"{"type":"assistant","uuid":"a3","timestamp":"2026-05-19T09:00:05.000000+00:00","message":{"role":"assistant","content":[{"type":"tool_use","id":"t-b2","name":"Bash","input":{"command":"rm -rf /"}}]}}"#,
    "\n",
    r#"{"type":"user","uuid":"u4","timestamp":"2026-05-19T09:00:06.000000+00:00","toolUseResult":"User rejected tool use","message":{"role":"user","content":[{"type":"tool_result","tool_use_id":"t-b2","content":"The user doesn't want to proceed","is_error":true}]}}"#,
    "\n",
    r#"{"type":"assistant","uuid":"a4","timestamp":"2026-05-19T09:00:07.000000+00:00","message":{"role":"assistant","content":[{"type":"tool_use","id":"t-task","name":"Task","input":{"subagent_type":"Explore"}}]}}"#,
    "\n",
    r#"{"type":"user","uuid":"u5","timestamp":"2026-05-19T09:00:08.000000+00:00","toolUseResult":{"status":"completed","agentId":"ag1","agentType":"Explore","totalDurationMs":1500,"totalTokens":99,"totalToolUseCount":2,"toolStats":{"bashCount":2}},"message":{"role":"user","content":[{"type":"tool_result","tool_use_id":"t-task","content":"done"}]}}"#,
    "\n",
    "this line is not json\n",
    ]
    .concat()
}

fn files() -> Vec<(String, SubagentFiles)> {
    vec![(
        "ag1".to_string(),
        SubagentFiles {
            log_path: "/tmp/p/sess/subagents/agent-ag1.jsonl".to_string(),
            log_exists: true,
            meta: Some(Some(JsonValue::Object(vec![JsonMember {
                key: "description".to_string(),
                value: JsonValue::Str("Look around".to_string()),
            }]))),
        },
    )]
}

fn report() -> SessionReport {
    let parsed = parse_lines(&lines_of(&session()));
    build_report(&resolved(), "sess", &parsed, &files())
}

#[test]
fn report_fields_come_from_the_records() {
    let r = report();
    assert_eq!(r.session_id, "sess");
    assert_eq!(r.project_cwd, "/tmp/p");
    assert_eq!(r.log_path, "/tmp/p/sess.jsonl");
    assert_eq!(r.started_at, "2026-05-19T09:00:00.000000+00:00");
    assert_eq!(r.ended_at, "2026-05-19T09:00:08.000000+00:00");
    assert_eq!(r.record_count, 10, "the malformed line counts too");
    assert_eq!(r.skills.len(), 1);
    assert_eq!(r.subagents.len(), 1);
    assert_eq!(r.tools.len(), 3);
    assert_eq!(r.errors.len(), 2);
    assert_eq!(r.interventions.len(), 1);
}

#[test]
fn skill_window_counts_attributed_records() {
    let skills = extract_skills(&records_of(&session()));
    assert_eq!(skills.len(), 1);
    let s = &skills[0];
    assert_eq!(s.skill_name, "gh-cli");
    assert_eq!(s.args.as_deref(), Some("list prs"));
    assert_eq!(s.invocation_uuid, "a1");
    assert_eq!(s.started_at, "2026-05-19T09:00:03.000000+00:00");
    assert_eq!(s.ended_at.as_deref(), Some("2026-05-19T09:00:04.000000+00:00"));
    assert_eq!(s.inner_tool_uses, 1);
    assert_eq!(s.inner_errors, 1);
    assert!(!s.launch_is_error);
    assert_eq!(s.launch_content, "Launching skill: gh-cli");
}

#[test]
fn tools_sorted_by_count_then_name() {
    let tools = extract_tools(&records_of(&session()));
    let rows: Vec<(&str, usize, usize)> = tools
        .iter()
        .map(|t| (t.tool_name.as_str(), t.invocation_count, t.error_count))
        .collect();
    assert_eq!(rows, vec![("Bash", 2, 2), ("Skill", 1, 0), ("Task", 1, 0)]);
}

#[test]
fn errors_are_classified_and_named() {
    let errors = extract_errors(&records_of(&session()));
    assert_eq!(errors.len(), 2);
    assert_eq!(errors[0].tool_use_id, "t-b1");
    assert_eq!(errors[0].category, ErrorCategory::Technical);
    assert_eq!(errors[0].tool_name, "Bash");
    assert_eq!(errors[0].excerpt, "exit 1");
    assert_eq!(errors[1].tool_use_id, "t-b2");
    assert_eq!(errors[1].category, ErrorCategory::UserRejection);
}

#[test]
fn permission_and_hook_prefixes_classify() {
    let body = [
        r#"{"type":"user","uuid":"u1","message":{"content":[{"type":"tool_result","tool_use_id":"p","content":"Permission to use Bash denied","is_error":true},{"type":"tool_result","tool_use_id":"h","content":"PreToolUse:Bash hook said no","is_error":true},{"type":"tool_result","tool_use_id":"ok","content":"fine"}]}}"#,
        "\n"
    ]
    .concat();
    let errors = extract_errors(&records_of(&body));
    assert_eq!(errors.len(), 2);
    assert_eq!(errors[0].category, ErrorCategory::PermissionDenied);
    assert_eq!(errors[0].tool_name, "<unknown>");
    assert_eq!(errors[0].timestamp, "");
    assert_eq!(errors[1].category, ErrorCategory::HookBlock);
}

fn failed_result_record(content: &str) -> String {
    format!(
        r#"{{"type":"user","message":{{"content":[{{"type":"tool_result","tool_use_id":"t","content":{},"is_error":true}}]}}}}"#,
        serde_json::to_string(content).unwrap()
    )
}

#[test]
fn error_excerpt_keeps_200_characters() {
    let long = "é".repeat(250);
    let body = format!("{}\n", failed_result_record(&long));
    let errors = extract_errors(&records_of(&body));
    assert_eq!(errors[0].excerpt.chars().count(), 200);
    assert_eq!(errors[0].category, ErrorCategory::Technical);
}

#[test]
fn structured_result_content_is_rendered_as_compact_json() {
    let body = [
        r#"{"type":"user","message":{"content":[{"type":"tool_result","tool_use_id":"t","content":[{"type":"text","text":"a\"b\nc"}],"is_error":true}]}}"#,
        "\n"
    ]
    .concat();
    let errors = extract_errors(&records_of(&body));
    assert_eq!(errors[0].excerpt, r#"[{"text":"a\"b\nc","type":"text"}]"#);
}

#[test]
fn interventions_follow_the_non_technical_errors() {
    let ivs = extract_interventions(&records_of(&session()));
    assert_eq!(ivs.len(), 1);
    assert_eq!(ivs[0].kind, InterventionKind::Error);
    assert_eq!(ivs[0].tool_name.as_deref(), Some("Bash"));
    assert_eq!(ivs[0].source_uuid, "t-b2");
}

#[test]
fn mid_stream_user_message_after_attachment_is_an_intervention() {
    let body = [
        r#"{"type":"attachment","uuid":"att","timestamp":"2026-05-19T09:00:00Z"}"#,
        "\n",
        r#"{"type":"user","uuid":"m1","parentUuid":"att","timestamp":"2026-05-19T09:30:15Z","message":{"role":"user","content":"stop that\nplease"}}"#,
        "\n"
    ]
    .concat();
    let ivs = extract_interventions(&records_of(&body));
    assert_eq!(ivs.len(), 1);
    assert_eq!(ivs[0].kind, InterventionKind::UserMidStream);
    assert_eq!(ivs[0].source_uuid, "m1");
    assert!(ivs[0].tool_name.is_none());
}

#[test]
fn human_rendering_of_a_populated_report() {
    let r = report();
    let out = format_human(&r, &vec!["1.5".to_string()]);
    let expected = [
        "Session  sess\n",
        "Project  /tmp/p\n",
        "Span     2026-05-19T09:00:00Z → 2026-05-19T09:00:08Z  (8s)\n",
        "Records  10 lines\n",
        "\n",
        "== Skills (1) ==\n",
        "  gh-cli  1 invocation, 1 inner errors, window 1 tool uses\n",
        "\n",
        "== Subagents (1) ==\n",
        "  Explore  ag1  status=completed  1.5s  99 tok   bash=2 read=0 search=0 edit=0\n",
        "    description: Look around\n",
        "    log: /tmp/p/sess/subagents/agent-ag1.jsonl\n",
        "\n",
        "== Tools (top 10 by use) ==\n",
        "  Bash   2 invocations, 2 errors\n",
        "  Skill  1 invocation, 0 errors   [see Skills]\n",
        "  Task   1 invocation, 0 errors   [see Subagents]\n",
        "\n",
        "== Errors (2) ==\n",
        "  UserRejection (1):\n",
        "    Bash  t-b2  \"The user doesn't want to proceed\"\n",
        "  PermissionDenied (0):\n",
        "  HookBlock (0):\n",
        "  Technical (1):\n",
        "    Bash  t-b1  \"exit 1\"\n",
        "\n",
        "== Interventions (1) ==\n",
        "  [error]  Bash  at 09:00:06Z\n",
        "\n",
    ]
    .concat();
    assert_eq!(out, expected);
    assert!(!out.contains("+00:00"));
    assert!(!out.contains(".000000"));
}

#[test]
fn all_section_headers_appear_even_for_a_plain_text_session() {
    let body = [
        r#"{"type":"user","uuid":"u1","timestamp":"2026-05-19T09:00:00Z","message":{"role":"user","content":"hi"}}"#,
        "\n",
        r#"{"type":"assistant","uuid":"a1","timestamp":"2026-05-19T10:02:03Z","message":{"role":"assistant","content":[{"type":"text","text":"hello"}]}}"#,
        "\n"
    ]
    .concat();
    let parsed = parse_lines(&lines_of(&body));
    let r = build_report(&resolved(), "plain", &parsed, &Vec::new());
    let out = format_human(&r, &Vec::new());
    for header in [
        "== Skills (0) ==",
        "== Subagents (0) ==",
        "== Tools (top 10 by use) ==",
        "== Errors (0) ==",
        "== Interventions (0) ==",
    ] {
        assert!(out.contains(header), "missing {header} in:\n{out}");
    }
    assert!(out.contains("(1h 2m)"));
}

#[test]
fn tools_section_shows_at_most_ten_rows() {
    let mut body = String::new();
    for i in 0..12 {
        body.push_str(&format!(
            r#"{{"type":"assistant","uuid":"a{i}","message":{{"content":[{{"type":"tool_use","id":"t{i}","name":"Tool{i:02}","input":{{}}}}]}}}}"#
        ));
        body.push('\n');
    }
    let parsed = parse_lines(&lines_of(&body));
    let r = build_report(&resolved(), "many", &parsed, &Vec::new());
    assert_eq!(r.tools.len(), 12);
    let out = format_human(&r, &Vec::new());
    assert!(out.contains("Tool09"));
    assert!(!out.contains("Tool10"));
    assert!(!out.contains("Tool11"));
}

#[test]
fn duration_formats() {
    assert_eq!(fmt_duration(0), "0s");
    assert_eq!(fmt_duration(59), "59s");
    assert_eq!(fmt_duration(60), "1m 0s");
    assert_eq!(fmt_duration(2524), "42m 4s");
    assert_eq!(fmt_duration(3600), "1h 0m");
    assert_eq!(fmt_duration(3725), "1h 2m");
}

#[test]
fn span_without_parseable_ends_has_no_elapsed_part() {
    assert_eq!(fmt_span("bad", "2026-05-19T09:00:00Z"), "bad → 2026-05-19T09:00:00Z");
    assert_eq!(
        fmt_span("2026-05-19T09:00:10Z", "2026-05-19T09:00:00Z"),
        "2026-05-19T09:00:10Z → 2026-05-19T09:00:00Z  (0s)"
    );
}

#[test]
fn timestamps_reformat_or_pass_through() {
    assert_eq!(fmt_timestamp("2026-05-19T09:00:00.123456+00:00"), "2026-05-19T09:00:00Z");
    assert_eq!(fmt_timestamp("not a time"), "not a time");
    assert_eq!(fmt_time("2026-05-19T09:14:02.5+00:00"), "09:14:02Z");
    assert_eq!(fmt_time(""), "");
}

#[test]
fn plural_words_and_category_names() {
    assert_eq!(pluralize(1, "error"), "error");
    assert_eq!(pluralize(0, "error"), "errors");
    assert_eq!(pluralize(2, "invocation"), "invocations");
    assert_eq!(category_name(ErrorCategory::PermissionDenied), "PermissionDenied");
    assert_eq!(category_name(ErrorCategory::Technical), "Technical");
}

#[test]
fn user_record_echoing_a_tool_result_under_an_attachment_is_an_intervention() {
    let body = [
        r#"{"type":"attachment","uuid":"att","timestamp":"2026-05-19T09:00:00Z"}"#,
        "\n",
        r#"{"type":"user","uuid":"m2","parentUuid":"att","timestamp":"2026-05-19T09:00:05Z","message":{"role":"user","content":[{"type":"tool_result","tool_use_id":"t1","content":"ok"}]}}"#,
        "\n",
    ]
    .concat();
    let ivs = extract_interventions(&records_of(&body));
    assert_eq!(ivs.len(), 1);
    assert_eq!(ivs[0].kind, InterventionKind::UserMidStream);
    assert_eq!(ivs[0].source_uuid, "m2");
    assert_eq!(ivs[0].timestamp, "2026-05-19T09:00:05Z");
}

#[test]
fn tools_section_columns_are_aligned() {
    let mut body = String::new();
    let mut k = 0;
    for (name, n) in [("Bash", 111), ("Read", 77), ("Edit", 38), ("WebSearch", 2)] {
        for _ in 0..n {
            body.push_str(&format!(
                r#"{{"type":"assistant","uuid":"a{k}","message":{{"content":[{{"type":"tool_use","id":"t{k}","name":"{name}","input":{{}}}}]}}}}"#
            ));
            body.push('\n');
            k += 1;
        }
    }
    let parsed = parse_lines(&lines_of(&body));
    let r = build_report(&resolved(), "cols", &parsed, &Vec::new());
    let out = format_human(&r, &Vec::new());
    let expected = [
        "== Tools (top 10 by use) ==\n",
        "  Bash       111 invocations, 0 errors\n",
        "  Read        77 invocations, 0 errors\n",
        "  Edit        38 invocations, 0 errors\n",
        "  WebSearch    2 invocations, 0 errors\n",
        "\n",
    ]
    .concat();
    assert!(out.contains(&expected), "got:\n{out}");
}

#[test]
fn span_elapsed_time_needs_both_ends() {
    assert_eq!(fmt_span("2026-05-19T09:00:00Z", "bad"), "2026-05-19T09:00:00Z → bad");
    assert_eq!(fmt_span("", ""), " → ");
    assert_eq!(
        fmt_span("2026-05-22T18:30:00Z", "2026-05-22T19:12:04Z"),
        "2026-05-22T18:30:00Z → 2026-05-22T19:12:04Z  (42m 4s)"
    );
    assert_eq!(
        fmt_span("2026-05-19T09:00:00.900Z", "2026-05-19T09:00:02.100Z"),
        "2026-05-19T09:00:00Z → 2026-05-19T09:00:02Z  (1s)"
    );
}
