//! Subagent invocations. Each `Task` tool_use whose `tool_result` arrives on
//! a record carrying a `toolUseResult` payload becomes one
//! `SubagentInvocation`, read from that payload; the on-disk sidecars
//! (`agent-<id>.meta.json` for the description, `agent-<id>.jsonl` for the
//! drill-down log) are looked up by agent id in what the caller found on
//! disk.

use vstd::prelude::*;

use crate::extract::{content_blocks, keyed_view, lookup_last, lookup_last_of, record_blocks};
use crate::json::{get, get_v, json_clone, str_member, str_member_of, u64_member, u64_member_of, JsonV, JsonValue};
use crate::parser::record::{blocks_view, ojson, BlockV, ContentBlock, JsonlRecord};

verus! {

/// Per-category tool counts of a subagent run.
pub struct ToolStats {
    pub read_count: u64,
    pub search_count: u64,
    pub bash_count: u64,
    pub edit_file_count: u64,
    pub lines_added: u64,
    pub lines_removed: u64,
    pub other_tool_count: u64,
}

/// One subagent invocation.
pub struct SubagentInvocation {
    pub agent_id: String,
    pub agent_type: String,
    pub description: String,
    pub tool_use_id: String,
    pub status: String,
    pub total_duration_ms: u64,
    pub total_tokens: u64,
    pub total_tool_use_count: u64,
    pub tool_stats: ToolStats,
    pub log_path: String,
}

/// The model of a `SubagentInvocation`.
pub struct SubagentInvocationV {
    pub agent_id: Seq<char>,
    pub agent_type: Seq<char>,
    pub description: Seq<char>,
    pub tool_use_id: Seq<char>,
    pub status: Seq<char>,
    pub total_duration_ms: u64,
    pub total_tokens: u64,
    pub total_tool_use_count: u64,
    pub tool_stats: ToolStats,
    pub log_path: Seq<char>,
}

impl View for SubagentInvocation {
    type V = SubagentInvocationV;

    open spec fn view(&self) -> SubagentInvocationV {
        SubagentInvocationV {
            agent_id: self.agent_id@,
            agent_type: self.agent_type@,
            description: self.description@,
            tool_use_id: self.tool_use_id@,
            status: self.status@,
            total_duration_ms: self.total_duration_ms,
            total_tokens: self.total_tokens,
            total_tool_use_count: self.total_tool_use_count,
            tool_stats: self.tool_stats,
            log_path: self.log_path@,
        }
    }
}

/// The model of a list of subagent invocations.
pub open spec fn subagents_view(v: Seq<SubagentInvocation>) -> Seq<SubagentInvocationV> {
    v.map_values(|s: SubagentInvocation| s@)
}

/// What was found on disk for one agent id.
pub struct SubagentFiles {
    /// The path of `agent-<id>.jsonl` under the subagents directory.
    pub log_path: String,
    /// Whether that log file exists.
    pub log_exists: bool,
    /// `None` where `agent-<id>.meta.json` does not exist; `Some(None)` where
    /// it exists but could not be read or parsed as JSON; else its value.
    pub meta: Option<Option<JsonValue>>,
}

/// The model of `SubagentFiles`.
pub struct SubagentFilesV {
    pub log_path: Seq<char>,
    pub log_exists: bool,
    pub meta: Option<Option<JsonV>>,
}

impl View for SubagentFiles {
    type V = SubagentFilesV;

    open spec fn view(&self) -> SubagentFilesV {
        SubagentFilesV {
            log_path: self.log_path@,
            log_exists: self.log_exists,
            meta: match self.meta {
                None => None,
                Some(None) => Some(None),
                Some(Some(v)) => Some(Some(v@)),
            },
        }
    }
}

/// A `u64` member, 0 where it is absent or not a `u64`.
pub open spec fn u64_or_zero(v: JsonV, key: Seq<char>) -> u64 {
    match u64_member(v, key) {
        Some(n) => n,
        None => 0,
    }
}

/// A string member, empty where it is absent or not a string.
pub open spec fn str_or_empty(v: JsonV, key: Seq<char>) -> Seq<char> {
    match str_member(v, key) {
        Some(s) => s,
        None => Seq::empty(),
    }
}

/// The tool counts of an on-disk `toolStats` object (camelCase keys).
pub open spec fn stats_of(v: JsonV) -> ToolStats {
    ToolStats {
        read_count: u64_or_zero(v, "readCount"@),
        search_count: u64_or_zero(v, "searchCount"@),
        bash_count: u64_or_zero(v, "bashCount"@),
        edit_file_count: u64_or_zero(v, "editFileCount"@),
        lines_added: u64_or_zero(v, "linesAdded"@),
        lines_removed: u64_or_zero(v, "linesRemoved"@),
        other_tool_count: u64_or_zero(v, "otherToolCount"@),
    }
}

/// Each count of a run's tool statistics is the `u64` member of the
/// `toolStats` object under the camelCase key of the same name, 0 where the
/// member is missing or not a `u64`: `readCount`, `searchCount`,
/// `bashCount`, `editFileCount`, `linesAdded`, `linesRemoved`,
/// `otherToolCount`.
pub proof fn law_tool_stats_fields(v: JsonV)
    ensures
        (match get_v(v, "readCount"@) {
            Some(JsonV::Number(Some(k), _)) => stats_of(v).read_count == k,
            _ => stats_of(v).read_count == 0,
        }),
        (match get_v(v, "searchCount"@) {
            Some(JsonV::Number(Some(k), _)) => stats_of(v).search_count == k,
            _ => stats_of(v).search_count == 0,
        }),
        (match get_v(v, "bashCount"@) {
            Some(JsonV::Number(Some(k), _)) => stats_of(v).bash_count == k,
            _ => stats_of(v).bash_count == 0,
        }),
        (match get_v(v, "editFileCount"@) {
            Some(JsonV::Number(Some(k), _)) => stats_of(v).edit_file_count == k,
            _ => stats_of(v).edit_file_count == 0,
        }),
        (match get_v(v, "linesAdded"@) {
            Some(JsonV::Number(Some(k), _)) => stats_of(v).lines_added == k,
            _ => stats_of(v).lines_added == 0,
        }),
        (match get_v(v, "linesRemoved"@) {
            Some(JsonV::Number(Some(k), _)) => stats_of(v).lines_removed == k,
            _ => stats_of(v).lines_removed == 0,
        }),
        (match get_v(v, "otherToolCount"@) {
            Some(JsonV::Number(Some(k), _)) => stats_of(v).other_tool_count == k,
            _ => stats_of(v).other_tool_count == 0,
        }),
{
}

/// Reads the tool counts of a `toolStats` object; a missing or non-`u64`
/// count reads as 0.
pub fn parse_tool_stats(v: &JsonValue) -> (r: ToolStats)
    ensures
        r == stats_of(v@),
{
    let pick = |key: &str| -> (n: u64)
        ensures
            n == u64_or_zero(v@, key@),
        {
            match u64_member_of(v, key) {
                Some(n) => n,
                None => 0,
            }
        };
    ToolStats {
        read_count: pick("readCount"),
        search_count: pick("searchCount"),
        bash_count: pick("bashCount"),
        edit_file_count: pick("editFileCount"),
        lines_added: pick("linesAdded"),
        lines_removed: pick("linesRemoved"),
        other_tool_count: pick("otherToolCount"),
    }
}

/// `(tool_use_id, toolUseResult)` of every `tool_result` block that sits on
/// a record carrying a `toolUseResult`.
pub open spec fn payloads_of_blocks(r: JsonlRecord, bs: Seq<BlockV>) -> Seq<(Seq<char>, JsonV)>
    decreases bs.len(),
{
    if bs.len() == 0 {
        Seq::empty()
    } else {
        let rest = payloads_of_blocks(r, bs.drop_last());
        match (bs.last(), ojson(r.tool_use_result)) {
            (BlockV::ToolResult { tool_use_id, .. }, Some(t)) => rest.push((tool_use_id, t)),
            _ => rest,
        }
    }
}

/// The same over every record, in order.
pub open spec fn payloads(recs: Seq<JsonlRecord>) -> Seq<(Seq<char>, JsonV)>
    decreases recs.len(),
{
    if recs.len() == 0 {
        Seq::empty()
    } else {
        payloads(recs.drop_last()) + payloads_of_blocks(recs.last(), record_blocks(recs.last()))
    }
}

/// The description a meta sidecar gives: its `description` string, empty
/// where the sidecar is missing, unreadable, or has none.
pub open spec fn description_of(files: Option<SubagentFilesV>) -> Seq<char> {
    match files {
        Some(f) => match f.meta {
            Some(Some(m)) => str_or_empty(m, "description"@),
            _ => Seq::empty(),
        },
        None => Seq::empty(),
    }
}

/// The drill-down log path: the agent log's path where it exists, else
/// empty.
pub open spec fn log_path_of(files: Option<SubagentFilesV>) -> Seq<char> {
    match files {
        Some(f) => if f.log_exists {
            f.log_path
        } else {
            Seq::empty()
        },
        None => Seq::empty(),
    }
}

/// The invocation of `Task` tool_use `id` whose payload is `t`.
pub open spec fn subagent_of(
    files: Seq<(Seq<char>, SubagentFilesV)>,
    id: Seq<char>,
    t: JsonV,
) -> SubagentInvocationV {
    let agent_id = str_or_empty(t, "agentId"@);
    let f = lookup_last(files, agent_id);
    SubagentInvocationV {
        agent_id,
        agent_type: str_or_empty(t, "agentType"@),
        description: description_of(f),
        tool_use_id: id,
        status: str_or_empty(t, "status"@),
        total_duration_ms: u64_or_zero(t, "totalDurationMs"@),
        total_tokens: u64_or_zero(t, "totalTokens"@),
        total_tool_use_count: u64_or_zero(t, "totalToolUseCount"@),
        tool_stats: match get_v(t, "toolStats"@) {
            Some(s) => stats_of(s),
            None => stats_of(JsonV::Null),
        },
        log_path: log_path_of(f),
    }
}

/// The invocations launched from blocks `bs`.
pub open spec fn subagents_of_blocks(
    turs: Seq<(Seq<char>, JsonV)>,
    files: Seq<(Seq<char>, SubagentFilesV)>,
    bs: Seq<BlockV>,
) -> Seq<SubagentInvocationV>
    decreases bs.len(),
{
    if bs.len() == 0 {
        Seq::empty()
    } else {
        let rest = subagents_of_blocks(turs, files, bs.drop_last());
        match bs.last() {
            BlockV::ToolUse { id, name, .. } => if name == "Task"@ {
                match lookup_last(turs, id) {
                    Some(t) => rest.push(subagent_of(files, id, t)),
                    None => rest,
                }
            } else {
                rest
            },
            _ => rest,
        }
    }
}

/// The invocations launched from the records, in order.
pub open spec fn subagents_of_records(
    turs: Seq<(Seq<char>, JsonV)>,
    files: Seq<(Seq<char>, SubagentFilesV)>,
    recs: Seq<JsonlRecord>,
) -> Seq<SubagentInvocationV>
    decreases recs.len(),
{
    if recs.len() == 0 {
        Seq::empty()
    } else {
        subagents_of_records(turs, files, recs.drop_last()) + subagents_of_blocks(
            turs,
            files,
            record_blocks(recs.last()),
        )
    }
}

/// Every subagent invocation of a session, given what was found on disk for
/// each agent id.
pub open spec fn session_subagents(
    recs: Seq<JsonlRecord>,
    files: Seq<(Seq<char>, SubagentFilesV)>,
) -> Seq<SubagentInvocationV> {
    subagents_of_records(payloads(recs), files, recs)
}

/// The agent ids of the session's subagent invocations, in order: what the
/// caller has to look up on disk.
pub open spec fn session_agent_ids(recs: Seq<JsonlRecord>) -> Seq<Seq<char>> {
    agent_ids_of(session_subagents(recs, Seq::empty()))
}

/// The agent ids of a list of invocations.
pub open spec fn agent_ids_of(s: Seq<SubagentInvocationV>) -> Seq<Seq<char>> {
    s.map_values(|x: SubagentInvocationV| x.agent_id)
}

/// Two invocations that agree on everything the session log gives, and may
/// differ only in what was found on disk (the description and log path).
pub open spec fn same_from_log(a: SubagentInvocationV, b: SubagentInvocationV) -> bool {
    &&& a.agent_id == b.agent_id
    &&& a.agent_type == b.agent_type
    &&& a.tool_use_id == b.tool_use_id
    &&& a.status == b.status
    &&& a.total_duration_ms == b.total_duration_ms
    &&& a.total_tokens == b.total_tokens
    &&& a.total_tool_use_count == b.total_tool_use_count
    &&& a.tool_stats == b.tool_stats
}

proof fn lemma_blocks_same_from_log(
    turs: Seq<(Seq<char>, JsonV)>,
    f1: Seq<(Seq<char>, SubagentFilesV)>,
    f2: Seq<(Seq<char>, SubagentFilesV)>,
    bs: Seq<BlockV>,
)
    ensures
        subagents_of_blocks(turs, f1, bs).len() == subagents_of_blocks(turs, f2, bs).len(),
        forall|k: int|
            0 <= k < subagents_of_blocks(turs, f1, bs).len() ==> same_from_log(
                #[trigger] subagents_of_blocks(turs, f1, bs)[k],
                subagents_of_blocks(turs, f2, bs)[k],
            ),
    decreases bs.len(),
{
    if bs.len() > 0 {
        lemma_blocks_same_from_log(turs, f1, f2, bs.drop_last());
    }
}

proof fn lemma_records_same_from_log(
    turs: Seq<(Seq<char>, JsonV)>,
    f1: Seq<(Seq<char>, SubagentFilesV)>,
    f2: Seq<(Seq<char>, SubagentFilesV)>,
    recs: Seq<JsonlRecord>,
)
    ensures
        subagents_of_records(turs, f1, recs).len() == subagents_of_records(turs, f2, recs).len(),
        forall|k: int|
            0 <= k < subagents_of_records(turs, f1, recs).len() ==> same_from_log(
                #[trigger] subagents_of_records(turs, f1, recs)[k],
                subagents_of_records(turs, f2, recs)[k],
            ),
    decreases recs.len(),
{
    if recs.len() > 0 {
        lemma_records_same_from_log(turs, f1, f2, recs.drop_last());
        lemma_blocks_same_from_log(turs, f1, f2, record_blocks(recs.last()));
        let a1 = subagents_of_records(turs, f1, recs.drop_last());
        let a2 = subagents_of_records(turs, f2, recs.drop_last());
        let b1 = subagents_of_blocks(turs, f1, record_blocks(recs.last()));
        let b2 = subagents_of_blocks(turs, f2, record_blocks(recs.last()));
        assert forall|k: int| 0 <= k < (a1 + b1).len() implies same_from_log(
            #[trigger] (a1 + b1)[k],
            (a2 + b2)[k],
        ) by {
            if k < a1.len() {
                assert(same_from_log(a1[k], a2[k]));
            } else {
                assert(same_from_log(b1[k - a1.len()], b2[k - a1.len()]));
            }
        }
    }
}

/// What was found on disk fills in only each invocation's description and
/// log path: which invocations a session has, their order, and every other
/// field come from the session log alone. So the agent ids to look up on
/// disk are those of the invocations, whatever is then found.
pub proof fn law_files_fill_only_description_and_log(
    recs: Seq<JsonlRecord>,
    f1: Seq<(Seq<char>, SubagentFilesV)>,
    f2: Seq<(Seq<char>, SubagentFilesV)>,
)
    ensures
        session_subagents(recs, f1).len() == session_subagents(recs, f2).len(),
        forall|k: int|
            0 <= k < session_subagents(recs, f1).len() ==> same_from_log(
                #[trigger] session_subagents(recs, f1)[k],
                session_subagents(recs, f2)[k],
            ),
        agent_ids_of(session_subagents(recs, f1)) == session_agent_ids(recs),
{
    lemma_records_same_from_log(payloads(recs), f1, f2, recs);
    lemma_records_same_from_log(payloads(recs), f1, Seq::empty(), recs);
    let a = session_subagents(recs, f1);
    let b = session_subagents(recs, Seq::empty());
    assert(agent_ids_of(a) =~= agent_ids_of(b)) by {
        assert forall|k: int| 0 <= k < a.len() implies agent_ids_of(a)[k] == agent_ids_of(b)[k] by {
            assert(same_from_log(a[k], b[k]));
        }
    }
}

fn tool_result_payloads(records: &[JsonlRecord]) -> (r: Vec<(String, JsonValue)>)
    ensures
        keyed_view(r@) == payloads(records@),
{
    let mut out: Vec<(String, JsonValue)> = Vec::new();
    let mut i: usize = 0;
    while i < records.len()
        invariant
            0 <= i <= records@.len(),
            keyed_view(out@) == payloads(records@.take(i as int)),
        decreases records.len() - i,
    {
        let record = &records[i];
        let blocks = content_blocks(record);
        let ghost bv = blocks_view(blocks@);
        let ghost base = out@;
        let mut j: usize = 0;
        while j < blocks.len()
            invariant
                0 <= j <= blocks@.len(),
                bv == blocks_view(blocks@),
                *record == records@[i as int],
                keyed_view(out@) == keyed_view(base) + payloads_of_blocks(*record, bv.take(j as int)),
            decreases blocks.len() - j,
        {
            assert(bv.take(j + 1).drop_last() =~= bv.take(j as int));
            let ghost before = out@;
            if let ContentBlock::ToolResult { tool_use_id, .. } = &blocks[j] {
                if let Some(t) = &record.tool_use_result {
                    out.push((tool_use_id.clone(), json_clone(t)));
                    assert(keyed_view(out@) =~= keyed_view(before).push((tool_use_id@, t@)));
                }
            }
            j = j + 1;
        }
        assert(bv.take(bv.len() as int) =~= bv);
        assert(records@.take(i + 1).drop_last() =~= records@.take(i as int));
        assert(keyed_view(out@) =~= payloads(records@.take(i + 1)));
        i = i + 1;
    }
    assert(records@.take(records@.len() as int) =~= records@);
    out
}

fn str_or_empty_of(v: &JsonValue, key: &str) -> (r: String)
    ensures
        r@ == str_or_empty(v@, key@),
{
    match str_member_of(v, key) {
        Some(s) => s,
        None => String::new(),
    }
}

fn u64_or_zero_of(v: &JsonValue, key: &str) -> (r: u64)
    ensures
        r == u64_or_zero(v@, key@),
{
    match u64_member_of(v, key) {
        Some(n) => n,
        None => 0,
    }
}

/// Extracts the subagent invocations: for each `Task` tool_use with a
/// payload, the payload's agent id, type, status, totals and tool counts;
/// the description from the meta sidecar and the log path where the agent
/// log exists, both looked up in `files` by agent id (empty where absent).
pub fn extract_subagents(records: &[JsonlRecord], files: &Vec<(String, SubagentFiles)>) -> (r: Vec<
    SubagentInvocation,
>)
    ensures
        subagents_view(r@) == session_subagents(records@, keyed_view(files@)),
{
    let turs = tool_result_payloads(records);
    let ghost tv = keyed_view(turs@);
    let ghost fv = keyed_view(files@);
    let mut out: Vec<SubagentInvocation> = Vec::new();
    let mut i: usize = 0;
    while i < records.len()
        invariant
            0 <= i <= records@.len(),
            tv == keyed_view(turs@),
            tv == payloads(records@),
            fv == keyed_view(files@),
            subagents_view(out@) == subagents_of_records(tv, fv, records@.take(i as int)),
        decreases records.len() - i,
    {
        let blocks = content_blocks(&records[i]);
        let ghost bv = blocks_view(blocks@);
        let ghost base = out@;
        let mut j: usize = 0;
        while j < blocks.len()
            invariant
                0 <= j <= blocks@.len(),
                bv == blocks_view(blocks@),
                tv == keyed_view(turs@),
                fv == keyed_view(files@),
                subagents_view(out@) == subagents_view(base) + subagents_of_blocks(tv, fv, bv.take(j as int)),
            decreases blocks.len() - j,
        {
            assert(bv.take(j + 1).drop_last() =~= bv.take(j as int));
            let ghost before = out@;
            if let ContentBlock::ToolUse { id, name, .. } = &blocks[j] {
                if crate::text::eq_str(name, "Task") {
                    if let Some(t) = lookup_last_of(&turs, id) {
                        let agent_id = str_or_empty_of(t, "agentId");
                        let f = lookup_last_of(files, &agent_id);
                        let description = match f {
                            Some(f) => match &f.meta {
                                Some(Some(m)) => str_or_empty_of(m, "description"),
                                _ => String::new(),
                            },
                            None => String::new(),
                        };
                        let log_path = match f {
                            Some(f) => if f.log_exists {
                                f.log_path.clone()
                            } else {
                                String::new()
                            },
                            None => String::new(),
                        };
                        let tool_stats = match get(t, "toolStats") {
                            Some(s) => parse_tool_stats(s),
                            None => parse_tool_stats(&JsonValue::Null),
                        };
                        let inv = SubagentInvocation {
                            agent_id,
                            agent_type: str_or_empty_of(t, "agentType"),
                            description,
                            tool_use_id: id.clone(),
                            status: str_or_empty_of(t, "status"),
                            total_duration_ms: u64_or_zero_of(t, "totalDurationMs"),
                            total_tokens: u64_or_zero_of(t, "totalTokens"),
                            total_tool_use_count: u64_or_zero_of(t, "totalToolUseCount"),
                            tool_stats,
                            log_path,
                        };
                        out.push(inv);
                        assert(inv@ == subagent_of(fv, id@, t@));
                        assert(subagents_view(out@) =~= subagents_view(before).push(inv@));
                    }
                }
            }
            j = j + 1;
        }
        assert(bv.take(bv.len() as int) =~= bv);
        assert(records@.take(i + 1).drop_last() =~= records@.take(i as int));
        assert(subagents_view(out@) =~= subagents_of_records(tv, fv, records@.take(i + 1)));
        i = i + 1;
    }
    assert(records@.take(records@.len() as int) =~= records@);
    out
}


/// The model of a list of strings.
pub open spec fn strings_view(v: Seq<String>) -> Seq<Seq<char>> {
    v.map_values(|s: String| s@)
}

/// The agent ids of the session's subagent invocations, in order.
pub fn subagent_agent_ids(records: &[JsonlRecord]) -> (r: Vec<String>)
    ensures
        strings_view(r@) == session_agent_ids(records@),
{
    let none: Vec<(String, SubagentFiles)> = Vec::new();
    assert(keyed_view(none@) =~= Seq::<(Seq<char>, SubagentFilesV)>::empty());
    let subs = extract_subagents(records, &none);
    let ghost sv = subagents_view(subs@);
    let mut ids: Vec<String> = Vec::new();
    let mut i: usize = 0;
    while i < subs.len()
        invariant
            0 <= i <= subs@.len(),
            sv == subagents_view(subs@),
            strings_view(ids@) == agent_ids_of(sv.take(i as int)),
        decreases subs.len() - i,
    {
        let ghost before = ids@;
        ids.push(subs[i].agent_id.clone());
        assert(sv[i as int] == subs@[i as int]@);
        assert(agent_ids_of(sv.take(i + 1)) =~= agent_ids_of(sv.take(i as int)).push(sv[i as int].agent_id));
        assert(strings_view(ids@) =~= strings_view(before).push(subs@[i as int].agent_id@));
        i = i + 1;
    }
    assert(sv.take(sv.len() as int) =~= sv);
    ids
}

/// The warning for a subagent whose meta sidecar exists but whose log does
/// not (an orphan reference); none where both or neither exist, or where the
/// log exists.
pub open spec fn missing_log_message(agent_id: Seq<char>, f: SubagentFilesV) -> Option<Seq<char>> {
    if !f.log_exists && f.meta is Some {
        Some(
            "warning: subagent "@ + agent_id + " referenced by parent toolUseResult but no log file at "@
                + f.log_path,
        )
    } else {
        None
    }
}

/// The warning to print for a subagent whose log is missing while its meta
/// sidecar is present.
pub fn missing_log_warning(agent_id: &str, files: &SubagentFiles) -> (r: Option<String>)
    ensures
        match r {
            Some(m) => missing_log_message(agent_id@, files@) == Some(m@),
            None => missing_log_message(agent_id@, files@) is None,
        },
{
    if !files.log_exists && files.meta.is_some() {
        let mut m = String::new();
        m.append("warning: subagent ");
        m.append(agent_id);
        m.append(" referenced by parent toolUseResult but no log file at ");
        m.append(files.log_path.as_str());
        Some(m)
    } else {
        None
    }
}

} // verus!
