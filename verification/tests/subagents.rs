use ccturn::extract::subagents::{
    extract_subagents, missing_log_warning, subagent_agent_ids, SubagentFiles, SubagentInvocation,
};
use ccturn::json::{JsonMember, JsonNumber, JsonValue};
use ccturn::parser::record::JsonlRecord;
use ccturn::report::parse_lines;

const AGENT_ID: &str = "agent-id-1";
const TOOL_USE_ID: &str = "toolu_TASK";
const SUBAGENTS_DIR: &str = "/tmp/session/subagents";

fn to_json(v: &serde_json::Value) -> JsonValue {
    match v {
        serde_json::Value::Null => JsonValue::Null,
        serde_json::Value::Bool(b) => JsonValue::Bool(*b),
        serde_json::Value::Number(n) => JsonValue::Number(JsonNumber {
            as_u64: n.as_u64(),
            text: n.to_string(),
        }),
        serde_json::Value::String(s) => JsonValue::Str(s.clone()),
        serde_json::Value::Array(a) => JsonValue::Array(a.iter().map(to_json).collect()),
        serde_json::Value::Object(m) => JsonValue::Object(
            m.iter()
                .map(|(k, v)| JsonMember {
                    key: k.clone(),
                    value: to_json(v),
                })
                .collect(),
        ),
    }
}

// A session with one `Task` launch and its result payload.
fn load_session_records() -> Vec<JsonlRecord> {
    let lines = [
        format!(
            r#"{{"type":"assistant","uuid":"a1","timestamp":"2026-05-19T09:00:00Z","message":{{"role":"assistant","content":[{{"type":"tool_use","id":"{TOOL_USE_ID}","name":"Task","input":{{"subagent_type":"Explore","description":"Verify Skill and Task tool fields"}}}}]}}}}"#
        ),
        format!(
            r#"{{"type":"user","uuid":"u1","timestamp":"2026-05-19T09:00:12Z","toolUseResult":{{"status":"completed","agentId":"{AGENT_ID}","agentType":"Explore","totalDurationMs":11588,"totalTokens":20792,"totalToolUseCount":4,"toolStats":{{"readCount":0,"searchCount":0,"bashCount":4,"editFileCount":0,"linesAdded":0,"linesRemoved":0,"otherToolCount":0}}}},"message":{{"role":"user","content":[{{"type":"tool_result","tool_use_id":"{TOOL_USE_ID}","content":"done"}}]}}}}"#
        ),
    ];
    let parsed: Vec<Option<JsonValue>> = lines
        .iter()
        .map(|l| serde_json::from_str::<serde_json::Value>(l).ok().map(|v| to_json(&v)))
        .collect();
    parse_lines(&parsed).records
}

fn meta(description: &str) -> Option<Option<JsonValue>> {
    Some(Some(JsonValue::Object(vec![
        JsonMember {
            key: "agentType".to_string(),
            value: JsonValue::Str("Explore".to_string()),
        },
        JsonMember {
            key: "description".to_string(),
            value: JsonValue::Str(description.to_string()),
        },
        JsonMember {
            key: "toolUseId".to_string(),
            value: JsonValue::Str(TOOL_USE_ID.to_string()),
        },
    ])))
}

fn expected_log_path() -> String {
    format!("{SUBAGENTS_DIR}/agent-{AGENT_ID}.jsonl")
}

fn files(log_exists: bool, meta: Option<Option<JsonValue>>) -> Vec<(String, SubagentFiles)> {
    vec![(
        AGENT_ID.to_string(),
        SubagentFiles {
            log_path: expected_log_path(),
            log_exists,
            meta,
        },
    )]
}

fn assert_tool_use_result_fields(subagent: &SubagentInvocation) {
    assert_eq!(subagent.agent_id, AGENT_ID);
    assert_eq!(subagent.agent_type, "Explore");
    assert_eq!(subagent.tool_use_id, TOOL_USE_ID);
    assert_eq!(subagent.status, "completed");
    assert_eq!(subagent.total_duration_ms, 11588);
    assert_eq!(subagent.total_tokens, 20792);
    assert_eq!(subagent.total_tool_use_count, 4);
    assert_eq!(subagent.tool_stats.bash_count, 4);
    assert_eq!(subagent.tool_stats.read_count, 0);
    assert_eq!(subagent.tool_stats.search_count, 0);
    assert_eq!(subagent.tool_stats.edit_file_count, 0);
    assert_eq!(subagent.tool_stats.lines_added, 0);
    assert_eq!(subagent.tool_stats.lines_removed, 0);
    assert_eq!(subagent.tool_stats.other_tool_count, 0);
}

#[test]
fn case_a_full_pair_present_populates_description_and_log_path() {
    let records = load_session_records();
    let subagents = extract_subagents(&records, &files(true, meta("Verify Skill and Task tool fields")));
    assert_eq!(subagents.len(), 1);
    let subagent = &subagents[0];
    assert_tool_use_result_fields(subagent);
    assert_eq!(subagent.description, "Verify Skill and Task tool fields");
    assert_eq!(subagent.log_path, expected_log_path());
}

#[test]
fn case_b_meta_missing_but_log_present_keeps_log_path_and_blanks_description() {
    let records = load_session_records();
    let subagents = extract_subagents(&records, &files(true, None));
    assert_eq!(subagents.len(), 1);
    let subagent = &subagents[0];
    assert_tool_use_result_fields(subagent);
    assert_eq!(subagent.description, "");
    assert_eq!(subagent.log_path, expected_log_path());
}

#[test]
fn case_c_meta_present_but_log_missing_emits_empty_log_path() {
    let records = load_session_records();
    let f = files(false, meta("Verify Skill and Task tool fields"));
    let subagents = extract_subagents(&records, &f);
    assert_eq!(subagents.len(), 1);
    let subagent = &subagents[0];
    assert_tool_use_result_fields(subagent);
    assert_eq!(subagent.description, "Verify Skill and Task tool fields");
    assert_eq!(subagent.log_path, "");
    assert_eq!(
        missing_log_warning(AGENT_ID, &f[0].1).as_deref(),
        Some(
            "warning: subagent agent-id-1 referenced by parent toolUseResult but no log file at /tmp/session/subagents/agent-agent-id-1.jsonl"
        )
    );
}

#[test]
fn case_d_both_meta_and_log_missing_emits_empty_description_and_log_path() {
    let records = load_session_records();
    let f = files(false, None);
    let subagents = extract_subagents(&records, &f);
    assert_eq!(subagents.len(), 1);
    let subagent = &subagents[0];
    assert_tool_use_result_fields(subagent);
    assert_eq!(subagent.description, "");
    assert_eq!(subagent.log_path, "");
    assert!(missing_log_warning(AGENT_ID, &f[0].1).is_none());
}

#[test]
fn unreadable_meta_blanks_description_and_agent_ids_follow_launches() {
    let records = load_session_records();
    let subagents = extract_subagents(&records, &files(true, Some(None)));
    assert_eq!(subagents[0].description, "");
    assert_eq!(subagent_agent_ids(&records), vec![AGENT_ID.to_string()]);
}

#[test]
fn task_without_result_payload_is_not_a_subagent() {
    let lines = [r#"{"type":"assistant","uuid":"a1","message":{"content":[{"type":"tool_use","id":"t1","name":"Task","input":{}}]}}"#];
    let parsed: Vec<Option<JsonValue>> = lines
        .iter()
        .map(|l| serde_json::from_str::<serde_json::Value>(l).ok().map(|v| to_json(&v)))
        .collect();
    let records = parse_lines(&parsed).records;
    assert!(extract_subagents(&records, &Vec::new()).is_empty());
}
