use ccturn::extract::errors::ErrorCategory;
use ccturn::extract::interventions::InterventionKind;
use ccturn::extract::subagents::SubagentFiles;
use ccturn::format::human::format_human;
use ccturn::json::{JsonMember, JsonNumber, JsonValue};
use ccturn::locator::{CwdSource, ResolvedSession};
use ccturn::report::{build_report, parse_lines, SessionReport};

fn to_json(v: &serde_json::Value) -> JsonValue {
    match v {
        serde_json::Value::Null => JsonValue::Null,
        serde_json::Value::Bool(b) => JsonValue::Bool(*b),
        serde_json::Value::Number(n) => JsonValue::Number(JsonNumber {
            as_u64: n.as_u64(),
            text: n.to_string(),
        }),
        serde_json::Value::String(s) => JsonValue::Str(s.clone()),
        serde_json::Value::Array(a) => JsonValue::Array(a.iter().map(to_json).collect()),
        serde_json::Value::Object(m) => JsonValue::Object(
            m.iter()
                .map(|(k, v)| JsonMember {
                    key: k.clone(),
                    value: to_json(v),
                })
                .collect(),
        ),
    }
}

fn ts(sec: u32) -> String {
    format!("2026-05-19T09:00:{sec:02}.000000+00:00")
}

fn tool_use(uuid: &str, sec: u32, id: &str, name: &str, input: &str, attributed: bool) -> String {
    let attribution = if attributed { r#","attributionSkill":"gh-cli""# } else { "" };
    format!(
        r#"{{"type":"assistant","uuid":"{uuid}","timestamp":"{}"{attribution},"message":{{"role":"assistant","content":[{{"type":"tool_use","id":"{id}","name":"{name}","input":{input}}}]}}}}"#,
        ts(sec)
    )
}

fn tool_result(uuid: &str, sec: u32, id: &str, content: &str, is_error: bool, payload: &str) -> String {
    format!(
        r#"{{"type":"user","uuid":"{uuid}","timestamp":"{}"{payload},"message":{{"role":"user","content":[{{"type":"tool_result","tool_use_id":"{id}","content":{},"is_error":{is_error}}}]}}}}"#,
        ts(sec),
        serde_json::to_string(content).unwrap()
    )
}

// A session with one skill, one subagent, one error of each category, and a
// mid-stream user message: four errors and four interventions.
fn full_session() -> Vec<String> {
    vec![
        format!(r#"{{"type":"user","uuid":"u0","timestamp":"{}","message":{{"role":"user","content":"begin"}}}}"#, ts(0)),
        tool_use("a1", 1, "tu_skill", "Skill", r#"{"skill":"gh-cli"}"#, false),
        tool_result("u1", 2, "tu_skill", "Launching skill: gh-cli", false, ""),
        tool_use("a2", 3, "tu_inner", "Bash", r#"{"command":"gh pr list"}"#, true),
        tool_result("u2", 4, "tu_inner", "ok", false, r#","attributionSkill":"gh-cli""#),
        tool_use("a3", 5, "tu_task", "Task", r#"{"subagent_type":"Explore"}"#, false),
        tool_result(
            "u3",
            6,
            "tu_task",
            "explored",
            false,
            r#","toolUseResult":{"status":"completed","agentId":"ag1","agentType":"Explore","totalDurationMs":2000,"totalTokens":10}"#,
        ),
        tool_use("a4", 7, "tu_reject", "Bash", r#"{"command":"rm -rf /"}"#, false),
        tool_result(
            "u4",
            8,
            "tu_reject",
            "The user doesn't want to proceed with this tool use.",
            true,
            r#","toolUseResult":"User rejected tool use""#,
        ),
        tool_use("a5", 9, "tu_perm", "Edit", r#"{"file_path":"/etc/hosts"}"#, false),
        tool_result("u5", 10, "tu_perm", "Permission to use Edit has been denied.", true, ""),
        tool_use("a6", 11, "tu_hook", "Bash", r#"{"command":"git push"}"#, false),
        tool_result("u6", 12, "tu_hook", "PreToolUse:Bash hook blocked this call", true, ""),
        tool_use("a7", 13, "tu_tech", "Read", r#"{"file_path":"/missing"}"#, false),
        tool_result("u7", 14, "tu_tech", "exit 1: file not found", true, ""),
        format!(r#"{{"type":"attachment","uuid":"att","timestamp":"{}"}}"#, ts(15)),
        format!(
            r#"{{"type":"user","uuid":"mid","parentUuid":"att","timestamp":"{}","message":{{"role":"user","content":"wait, use the other branch"}}}}"#,
            ts(16)
        ),
        format!(
            r#"{{"type":"assistant","uuid":"a7b","timestamp":"{}","message":{{"role":"assistant","content":[{{"type":"text","text":"switching"}}]}}}}"#,
            ts(17)
        ),
        format!(
            r#"{{"type":"assistant","uuid":"a8","timestamp":"{}","message":{{"role":"assistant","content":[{{"type":"text","text":"ok"}}]}}}}"#,
            ts(18)
        ),
    ]
}

fn empty_sections_session() -> Vec<String> {
    vec![
        format!(r#"{{"type":"user","uuid":"u0","timestamp":"{}","message":{{"role":"user","content":"hello"}}}}"#, ts(0)),
        format!(
            r#"{{"type":"assistant","uuid":"a0","timestamp":"{}","message":{{"role":"assistant","content":[{{"type":"text","text":"hi"}}]}}}}"#,
            ts(5)
        ),
    ]
}

fn report_from(lines: Vec<String>) -> SessionReport {
    let parsed_lines: Vec<Option<JsonValue>> = lines
        .iter()
        .map(|l| serde_json::from_str::<serde_json::Value>(l).ok().map(|v| to_json(&v)))
        .collect();
    let parsed = parse_lines(&parsed_lines);
    let resolved = ResolvedSession {
        jsonl_path: "/fixtures/full-session.jsonl".to_string(),
        subagents_dir: "/fixtures/full-session-subagents".to_string(),
        project_cwd_encoded: "-tmp-test-project".to_string(),
        project_cwd: "/tmp/test-project".to_string(),
        cwd_source: CwdSource::FirstRecord,
    };
    let files: Vec<(String, SubagentFiles)> = Vec::new();
    build_report(&resolved, "full-session", &parsed, &files)
}

fn render(report: &SessionReport) -> String {
    let seconds: Vec<String> = report
        .subagents
        .iter()
        .map(|s| format!("{:.1}", s.total_duration_ms as f64 / 1000.0))
        .collect();
    format_human(report, &seconds)
}

fn line_containing<'a>(output: &'a str, needle: &str) -> &'a str {
    output
        .lines()
        .find(|line| line.contains(needle))
        .unwrap_or_else(|| panic!("no line containing {needle:?} in human output:\n{output}"))
}

#[test]
fn all_section_headers_appear_for_a_populated_report() {
    let output = render(&report_from(full_session()));
    assert!(output.contains("== Skills (1) =="), "{output}");
    assert!(output.contains("== Subagents (1) =="), "{output}");
    let tools_header = line_containing(&output, "== Tools");
    assert!(tools_header.contains("=="));
    assert!(output.contains("== Errors (4) =="), "{output}");
    assert!(output.contains("== Interventions (4) =="), "{output}");
}

#[test]
fn all_section_headers_appear_even_when_every_section_is_empty() {
    let output = render(&report_from(empty_sections_session()));
    assert!(output.contains("== Skills (0) =="));
    assert!(output.contains("== Subagents (0) =="));
    let tools_header = line_containing(&output, "== Tools");
    assert!(tools_header.contains("=="));
    assert!(output.contains("== Errors (0) =="));
    assert!(output.contains("== Interventions (0) =="));
}

#[test]
fn timestamps_are_reformatted_to_second_precision_with_z_suffix() {
    let output = render(&report_from(full_session()));
    assert!(output.contains("2026-05-19T09:00:00Z"));
    assert!(output.contains("2026-05-19T09:00:18Z"));
    assert!(!output.contains(".000000"));
    assert!(!output.contains("+00:00"));
}

#[test]
fn tools_section_marks_skill_and_task_rows_with_cross_reference() {
    let output = render(&report_from(full_session()));
    let skill_row = line_containing(&output, "[see Skills]");
    assert!(skill_row.contains("Skill"));
    let task_row = line_containing(&output, "[see Subagents]");
    assert!(task_row.contains("Task"));
}

#[test]
fn errors_group_each_category_and_interventions_list_times() {
    let output = render(&report_from(full_session()));
    assert!(output.contains("  UserRejection (1):\n    Bash  tu_reject  \"The user doesn't want to proceed with this tool use.\"\n"));
    assert!(output.contains("  PermissionDenied (1):\n    Edit  tu_perm  "));
    assert!(output.contains("  HookBlock (1):\n    Bash  tu_hook  "));
    assert!(output.contains("  Technical (1):\n    Read  tu_tech  \"exit 1: file not found\"\n"));
    assert!(output.contains("  [error]  Bash  at 09:00:08Z\n"));
    assert!(output.contains("  [user]   mid-stream user message at 09:00:16Z\n    \"wait, use the other branch\"\n"));
    assert!(output.contains("Span     2026-05-19T09:00:00Z → 2026-05-19T09:00:18Z  (18s)\n"));
    assert!(output.contains("  Explore  ag1  status=completed  2.0s  10 tok   bash=0 read=0 search=0 edit=0\n"));
}


#[test]
fn build_report_populates_every_top_level_field() {
    let report = report_from(full_session());
    assert_eq!(report.session_id, "full-session");
    assert_eq!(report.started_at, "2026-05-19T09:00:00.000000+00:00");
    assert_eq!(report.ended_at, "2026-05-19T09:00:18.000000+00:00");
    assert_eq!(report.record_count, 19);
    assert_eq!(report.project_cwd, "/tmp/test-project");
    assert_eq!(report.cwd_source, CwdSource::FirstRecord);
    assert_eq!(report.log_path, "/fixtures/full-session.jsonl");
    assert!(!report.skills.is_empty());
    assert!(!report.subagents.is_empty());
    assert!(!report.tools.is_empty());
    assert_eq!(report.errors.len(), 4);
    for expected in [
        ErrorCategory::UserRejection,
        ErrorCategory::PermissionDenied,
        ErrorCategory::HookBlock,
        ErrorCategory::Technical,
    ] {
        assert!(report.errors.iter().any(|e| e.category == expected));
    }
    assert!(report.interventions.iter().any(|i| i.kind == InterventionKind::Error));
    assert!(report.interventions.iter().any(|i| i.kind == InterventionKind::UserMidStream));
}
