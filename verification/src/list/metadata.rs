//! The per-session facts a listing row needs, gathered in one pass over a
//! session's records: the span, the first working directory, the session title,
//! the first real user message, the tool calls still open at the end, the
//! last tool result's error flag, and the `Task` launches in launch order.

use vstd::prelude::*;

use crate::extract::content_blocks;
use crate::extract::record_blocks;
use crate::extract::subagents::{parse_tool_stats as parse_task_stats, stats_of, ToolStats as TaskStats};
use crate::json::{
    as_str, as_str_v, get, get_v, json_view, str_member, str_member_of, u64_member, u64_member_of,
    JsonMember, JsonV, JsonValue,
};
use crate::list::sessions::{opt_view, summaries_view, SubagentSummary, SubagentSummaryV, ToolStats};
use crate::parser::record::{members_view, ojson, ostr, BlockV, ContentBlock, JsonlRecord};
use crate::text::{chars_of, push_char, starts_with, str_starts_with};

verus! {

/// What a session's records say, for its listing row.
pub struct SessionMetadata {
    pub started_at: Option<String>,
    pub ended_at: Option<String>,
    pub cwd: Option<String>,
    pub ai_title: Option<String>,
    pub first_user_message_excerpt: Option<String>,
    pub open_tool_uses: usize,
    pub last_tool_result_is_error: bool,
    pub subagents: Vec<SubagentSummary>,
    pub read_error: bool,
}

/// Where a `Task` launch stands: still waiting for its result, finished
/// (with what the result said), or superseded by a later launch with the
/// same id.
pub enum TaskSlotV {
    Pending(Seq<char>),
    Done(SubagentSummaryV),
    Dead,
}

/// The state of the pass after some records.
pub struct MetaState {
    pub started_at: Option<Seq<char>>,
    pub ended_at: Option<Seq<char>>,
    pub cwd: Option<Seq<char>>,
    pub ai_title: Option<Seq<char>>,
    pub excerpt: Option<Seq<char>>,
    /// The ids of the tool calls opened and not yet answered.
    pub open: Set<Seq<char>>,
    pub last_error: bool,
    /// One slot per `Task` launch, in launch order.
    pub slots: Seq<TaskSlotV>,
}

/// The state before any record.
pub open spec fn initial_state() -> MetaState {
    MetaState {
        started_at: None,
        ended_at: None,
        cwd: None,
        ai_title: None,
        excerpt: None,
        open: Set::empty(),
        last_error: false,
        slots: Seq::empty(),
    }
}

/// `char::is_whitespace`: the Unicode `White_Space` characters.
pub open spec fn is_whitespace(c: char) -> bool {
    let n = c as u32;
    (9 <= n <= 13) || n == 32 || n == 0x85 || n == 0xA0 || n == 0x1680 || (0x2000 <= n <= 0x200A)
        || n == 0x2028 || n == 0x2029 || n == 0x202F || n == 0x205F || n == 0x3000
}

/// `str::trim_start`: the text without its leading whitespace.
pub open spec fn trim_start(s: Seq<char>) -> Seq<char>
    decreases s.len(),
{
    if s.len() > 0 && is_whitespace(s[0]) {
        trim_start(s.drop_first())
    } else {
        s
    }
}

/// The text with each newline replaced by a space.
pub open spec fn newlines_to_spaces(s: Seq<char>) -> Seq<char> {
    s.map_values(|c: char| if c == '\n' { ' ' } else { c })
}

/// A one-line excerpt: newlines become spaces, leading whitespace goes, and
/// a text over 80 characters keeps 79 of them and an ellipsis.
pub open spec fn excerpt_text(raw: Seq<char>) -> Seq<char> {
    let c = trim_start(newlines_to_spaces(raw));
    if c.len() <= 80 {
        c
    } else {
        c.take(79).push('…')
    }
}

/// The first element of `a` tagged `text` that carries a string `text`.
pub open spec fn first_text_block(a: Seq<JsonV>) -> Option<Seq<char>>
    decreases a.len(),
{
    if a.len() == 0 {
        None
    } else if str_member(a[0], "type"@) == Some("text"@) && str_member(a[0], "text"@) is Some {
        str_member(a[0], "text"@)
    } else {
        first_text_block(a.drop_first())
    }
}

/// The text of a user message: its `content` where that is a string, else
/// the first text block of its `content` array.
pub open spec fn user_text(m: JsonV) -> Option<Seq<char>> {
    match get_v(m, "content"@) {
        Some(JsonV::Str(s)) => Some(s),
        Some(JsonV::Array(a)) => first_text_block(a),
        _ => None,
    }
}

/// Whether an element of a message's content array is a text block: tagged
/// `text` and carrying a string `text`.
pub open spec fn is_text_block(b: JsonV) -> bool {
    str_member(b, "type"@) == Some("text"@) && str_member(b, "text"@) is Some
}

proof fn lemma_first_text_block(a: Seq<JsonV>)
    ensures
        (forall|i: int| 0 <= i < a.len() ==> !is_text_block(#[trigger] a[i])) ==> first_text_block(a)
            is None,
        forall|i: int|
            0 <= i < a.len() && is_text_block(#[trigger] a[i]) && (forall|j: int|
                0 <= j < i ==> !is_text_block(#[trigger] a[j])) ==> first_text_block(a) == str_member(
                a[i],
                "text"@,
            ),
    decreases a.len(),
{
    if a.len() > 0 {
        let rest = a.drop_first();
        lemma_first_text_block(rest);
        assert forall|i: int| 0 <= i < rest.len() implies #[trigger] rest[i] == a[i + 1] by {}
        if !is_text_block(a[0]) {
            assert forall|i: int|
                0 <= i < a.len() && is_text_block(#[trigger] a[i]) && (forall|j: int|
                    0 <= j < i ==> !is_text_block(#[trigger] a[j])) implies first_text_block(a)
                == str_member(a[i], "text"@) by {
                assert(i > 0);
                assert(rest[i - 1] == a[i]);
                assert forall|j: int| 0 <= j < i - 1 implies !is_text_block(#[trigger] rest[j]) by {
                    assert(rest[j] == a[j + 1]);
                }
            }
            if forall|i: int| 0 <= i < a.len() ==> !is_text_block(#[trigger] a[i]) {
                assert forall|i: int| 0 <= i < rest.len() implies !is_text_block(#[trigger] rest[i]) by {
                    assert(rest[i] == a[i + 1]);
                }
            }
        }
    }
}

/// The text of a user message: a string `content` as it is; for an array
/// `content`, the `text` of its first text block (tagged `text`, with a
/// string `text`), and none where it has no such block.
pub proof fn law_user_text(m: JsonV)
    ensures
        get_v(m, "content"@) matches Some(JsonV::Str(s)) ==> user_text(m) == Some(s),
        get_v(m, "content"@) matches Some(JsonV::Array(a)) ==> {
            &&& (forall|i: int| 0 <= i < a.len() ==> !is_text_block(#[trigger] a[i])) ==> user_text(m)
                is None
            &&& forall|i: int|
                0 <= i < a.len() && is_text_block(#[trigger] a[i]) && (forall|j: int|
                    0 <= j < i ==> !is_text_block(#[trigger] a[j])) ==> user_text(m) == str_member(
                    a[i],
                    "text"@,
                )
        },
{
    if let Some(JsonV::Array(a)) = get_v(m, "content"@) {
        lemma_first_text_block(a);
    }
}

/// The title an `ai-title` record carries: its `title` string, else its
/// message's string `content`.
pub open spec fn title_of(r: JsonlRecord) -> Option<Seq<char>> {
    let from_extra = match member_value_of(members_view(r.extra@), "title"@) {
        Some(v) => as_str_v(v),
        None => None,
    };
    match from_extra {
        Some(t) => Some(t),
        None => match ojson(r.message) {
            Some(m) => str_member(m, "content"@),
            None => None,
        },
    }
}

/// The value of the first member named `key`.
pub open spec fn member_value_of(m: Seq<(Seq<char>, JsonV)>, key: Seq<char>) -> Option<JsonV> {
    crate::json::member_value(m, key)
}

/// The excerpt a user record gives, where it is a real user message: not a
/// meta record, not a tool's echo, with text that is not a slash command.
pub open spec fn excerpt_candidate(r: JsonlRecord) -> Option<Seq<char>> {
    if r.record_type@ == "user"@ && r.is_meta != Some(true) && r.source_tool_use_id is None {
        match ojson(r.message) {
            Some(m) => match user_text(m) {
                Some(t) => if starts_with(trim_start(t), "<command-name>"@) {
                    None
                } else {
                    Some(excerpt_text(t))
                },
                None => None,
            },
            None => None,
        }
    } else {
        None
    }
}

/// The per-record part of the pass: span, first cwd, title, excerpt.
pub open spec fn header_step(st: MetaState, r: JsonlRecord) -> MetaState {
    let ts = ostr(r.timestamp);
    MetaState {
        started_at: if st.started_at is None { ts } else { st.started_at },
        ended_at: if ts is Some { ts } else { st.ended_at },
        cwd: if st.cwd is None { ostr(r.cwd) } else { st.cwd },
        ai_title: if r.record_type@ == "ai-title"@ && title_of(r) is Some {
            title_of(r)
        } else {
            st.ai_title
        },
        excerpt: if st.excerpt is None { excerpt_candidate(r) } else { st.excerpt },
        ..st
    }
}

/// The summary a `Task` result gives: the payload's fields, status
/// `unknown` where it has none.
pub open spec fn summary_of(payload: Option<JsonV>, id: Seq<char>) -> SubagentSummaryV {
    let p = match payload {
        Some(v) => v,
        None => JsonV::Null,
    };
    SubagentSummaryV {
        agent_id: match str_member(p, "agentId"@) {
            Some(s) => s,
            None => Seq::empty(),
        },
        agent_type: match str_member(p, "agentType"@) {
            Some(s) => s,
            None => Seq::empty(),
        },
        tool_use_id: id,
        description: None,
        status: match str_member(p, "status"@) {
            Some(s) => s,
            None => "unknown"@,
        },
        total_duration_ms: u64_member(p, "totalDurationMs"@),
        total_tokens: u64_member(p, "totalTokens"@),
        total_tool_use_count: u64_member(p, "totalToolUseCount"@),
        tool_stats: match get_v(p, "toolStats"@) {
            Some(s) => Some(list_stats(stats_of(s))),
            None => None,
        },
        log_path: None,
    }
}

/// The same counts, as a listing carries them.
pub open spec fn list_stats(s: TaskStats) -> ToolStats {
    ToolStats {
        read_count: s.read_count,
        search_count: s.search_count,
        bash_count: s.bash_count,
        edit_file_count: s.edit_file_count,
        lines_added: s.lines_added,
        lines_removed: s.lines_removed,
        other_tool_count: s.other_tool_count,
    }
}

/// The summary of a launch whose result never came.
pub open spec fn aborted_summary(id: Seq<char>) -> SubagentSummaryV {
    SubagentSummaryV {
        agent_id: Seq::empty(),
        agent_type: Seq::empty(),
        tool_use_id: id,
        description: None,
        status: "aborted"@,
        total_duration_ms: None,
        total_tokens: None,
        total_tool_use_count: None,
        tool_stats: None,
        log_path: None,
    }
}

/// A new launch with id `id` supersedes a waiting one with the same id.
pub open spec fn supersede(slots: Seq<TaskSlotV>, id: Seq<char>) -> Seq<TaskSlotV> {
    slots.map_values(|s: TaskSlotV| if s == TaskSlotV::Pending(id) { TaskSlotV::Dead } else { s })
}

/// A result for `id` finishes the launch waiting for it.
pub open spec fn finish(slots: Seq<TaskSlotV>, id: Seq<char>, s: SubagentSummaryV) -> Seq<TaskSlotV> {
    slots.map_values(|x: TaskSlotV| if x == TaskSlotV::Pending(id) { TaskSlotV::Done(s) } else { x })
}

/// One content block of record `r`.
pub open spec fn block_step(st: MetaState, r: JsonlRecord, b: BlockV) -> MetaState {
    match b {
        BlockV::ToolUse { id, name, .. } => MetaState {
            open: st.open.insert(id),
            slots: if name == "Task"@ {
                supersede(st.slots, id).push(TaskSlotV::Pending(id))
            } else {
                st.slots
            },
            ..st
        },
        BlockV::ToolResult { tool_use_id, is_error, .. } => MetaState {
            open: st.open.remove(tool_use_id),
            last_error: is_error,
            slots: finish(st.slots, tool_use_id, summary_of(ojson(r.tool_use_result), tool_use_id)),
            ..st
        },
        BlockV::Text { .. } => st,
    }
}

/// The content blocks `bs` of record `r`, in order.
pub open spec fn blocks_step(st: MetaState, r: JsonlRecord, bs: Seq<BlockV>) -> MetaState
    decreases bs.len(),
{
    if bs.len() == 0 {
        st
    } else {
        block_step(blocks_step(st, r, bs.drop_last()), r, bs.last())
    }
}

/// One record.
pub open spec fn record_step(st: MetaState, r: JsonlRecord) -> MetaState {
    blocks_step(header_step(st, r), r, record_blocks(r))
}

/// The state after records `recs`.
pub open spec fn meta_of(recs: Seq<JsonlRecord>) -> MetaState
    decreases recs.len(),
{
    if recs.len() == 0 {
        initial_state()
    } else {
        record_step(meta_of(recs.drop_last()), recs.last())
    }
}

/// The launches in launch order: finished ones with their summary, waiting
/// ones as aborted, superseded ones dropped.
pub open spec fn slot_summaries(slots: Seq<TaskSlotV>) -> Seq<SubagentSummaryV>
    decreases slots.len(),
{
    if slots.len() == 0 {
        Seq::empty()
    } else {
        let rest = slot_summaries(slots.drop_last());
        match slots.last() {
            TaskSlotV::Pending(id) => rest.push(aborted_summary(id)),
            TaskSlotV::Done(s) => rest.push(s),
            TaskSlotV::Dead => rest,
        }
    }
}


/// `char::is_whitespace`.
fn is_ws(c: char) -> (r: bool)
    ensures
        r == is_whitespace(c),
{
    let n = c as u32;
    (9 <= n && n <= 13) || n == 32 || n == 0x85 || n == 0xA0 || n == 0x1680 || (0x2000 <= n && n
        <= 0x200A) || n == 0x2028 || n == 0x2029 || n == 0x202F || n == 0x205F || n == 0x3000
}

/// Skipping `k` leading whitespace characters, with a non-whitespace one
/// (or the end) after them, is `trim_start`.
proof fn lemma_trim_start_skip(s: Seq<char>, k: int)
    requires
        0 <= k <= s.len(),
        forall|j: int| 0 <= j < k ==> is_whitespace(#[trigger] s[j]),
        k == s.len() || !is_whitespace(s[k]),
    ensures
        trim_start(s) == s.skip(k),
    decreases k,
{
    if k == 0 {
        assert(s.skip(0) =~= s);
    } else {
        let t = s.drop_first();
        assert forall|j: int| 0 <= j < k - 1 implies is_whitespace(#[trigger] t[j]) by {
            assert(t[j] == s[j + 1]);
        }
        if k < s.len() {
            assert(t[k - 1] == s[k]);
        }
        lemma_trim_start_skip(t, k - 1);
        assert(t.skip(k - 1) =~= s.skip(k));
    }
}

/// The number of leading whitespace characters of `s`.
fn leading_whitespace(s: &Vec<char>) -> (k: usize)
    ensures
        k <= s@.len(),
        trim_start(s@) == s@.skip(k as int),
{
    let mut k: usize = 0;
    while k < s.len() && is_ws(s[k])
        invariant
            k <= s@.len(),
            forall|j: int| 0 <= j < k ==> is_whitespace(#[trigger] s@[j]),
        decreases s.len() - k,
    {
        k = k + 1;
    }
    proof {
        lemma_trim_start_skip(s@, k as int);
    }
    k
}


proof fn lemma_trim_start_suffix(s: Seq<char>)
    ensures
        trim_start(s).len() <= s.len(),
        trim_start(s) == s.skip(s.len() - trim_start(s).len()),
    decreases s.len(),
{
    if s.len() > 0 && is_whitespace(s[0]) {
        lemma_trim_start_suffix(s.drop_first());
        let t = trim_start(s.drop_first());
        assert(s.drop_first().skip(s.drop_first().len() - t.len()) =~= s.skip(s.len() - t.len()));
    } else {
        assert(s.skip(0) =~= s);
    }
}

proof fn lemma_blocks_keep_header(st: MetaState, r: JsonlRecord, bs: Seq<BlockV>)
    ensures
        blocks_step(st, r, bs).started_at == st.started_at,
        blocks_step(st, r, bs).ended_at == st.ended_at,
        blocks_step(st, r, bs).cwd == st.cwd,
    decreases bs.len(),
{
    if bs.len() > 0 {
        lemma_blocks_keep_header(st, r, bs.drop_last());
    }
}

/// A session's span runs from the timestamp of the first record that
/// carries one to that of the last record that carries one (neither where
/// no record does), and its working directory is the first `cwd` a record
/// carries.
pub proof fn law_span_and_cwd(recs: Seq<JsonlRecord>)
    ensures
        meta_of(recs).started_at is None <==> forall|i: int|
            0 <= i < recs.len() ==> (#[trigger] recs[i]).timestamp is None,
        meta_of(recs).started_at is Some ==> exists|i: int|
            0 <= i < recs.len() && meta_of(recs).started_at == ostr((#[trigger] recs[i]).timestamp)
                && forall|j: int| 0 <= j < i ==> (#[trigger] recs[j]).timestamp is None,
        meta_of(recs).ended_at is None <==> forall|i: int|
            0 <= i < recs.len() ==> (#[trigger] recs[i]).timestamp is None,
        meta_of(recs).ended_at is Some ==> exists|i: int|
            0 <= i < recs.len() && meta_of(recs).ended_at == ostr((#[trigger] recs[i]).timestamp)
                && forall|j: int| i < j < recs.len() ==> (#[trigger] recs[j]).timestamp is None,
        meta_of(recs).cwd is None <==> forall|i: int|
            0 <= i < recs.len() ==> (#[trigger] recs[i]).cwd is None,
        meta_of(recs).cwd is Some ==> exists|i: int|
            0 <= i < recs.len() && meta_of(recs).cwd == ostr((#[trigger] recs[i]).cwd) && forall|j: int|
                0 <= j < i ==> (#[trigger] recs[j]).cwd is None,
    decreases recs.len(),
{
    if recs.len() > 0 {
        let p = recs.drop_last();
        let r = recs.last();
        let n = p.len() as int;
        law_span_and_cwd(p);
        lemma_blocks_keep_header(header_step(meta_of(p), r), r, record_blocks(r));
        assert forall|i: int| 0 <= i < n implies #[trigger] recs[i] == p[i] by {}
        assert(recs[n] == r);
        let st = meta_of(p);
        let m = meta_of(recs);
        if st.started_at is None {
            if r.timestamp is Some {
                assert(m.started_at == ostr(recs[n].timestamp));
            } else {
                assert forall|i: int| 0 <= i < recs.len() implies (#[trigger] recs[i]).timestamp is None by {
                    if i < n {
                        assert(p[i].timestamp is None);
                    }
                }
            }
        } else {
            let i = choose|i: int|
                0 <= i < p.len() && st.started_at == ostr((#[trigger] p[i]).timestamp) && forall|j: int|
                    0 <= j < i ==> (#[trigger] p[j]).timestamp is None;
            assert(recs[i] == p[i]);
            assert forall|j: int| 0 <= j < i implies (#[trigger] recs[j]).timestamp is None by {
                assert(recs[j] == p[j]);
            }
            assert(p[i].timestamp is Some);
        }
        if r.timestamp is Some {
            assert(m.ended_at == ostr(recs[n].timestamp));
        } else if st.ended_at is Some {
            let i = choose|i: int|
                0 <= i < p.len() && st.ended_at == ostr((#[trigger] p[i]).timestamp) && forall|j: int|
                    i < j < p.len() ==> (#[trigger] p[j]).timestamp is None;
            assert(recs[i] == p[i]);
            assert forall|j: int| i < j < recs.len() implies (#[trigger] recs[j]).timestamp is None by {
                if j < n {
                    assert(recs[j] == p[j]);
                }
            }
        } else {
            assert forall|i: int| 0 <= i < recs.len() implies (#[trigger] recs[i]).timestamp is None by {
                if i < n {
                    assert(p[i].timestamp is None);
                }
            }
        }
        if st.cwd is None {
            if r.cwd is Some {
                assert(m.cwd == ostr(recs[n].cwd));
            } else {
                assert forall|i: int| 0 <= i < recs.len() implies (#[trigger] recs[i]).cwd is None by {
                    if i < n {
                        assert(p[i].cwd is None);
                    }
                }
            }
        } else {
            let i = choose|i: int|
                0 <= i < p.len() && st.cwd == ostr((#[trigger] p[i]).cwd) && forall|j: int|
                    0 <= j < i ==> (#[trigger] p[j]).cwd is None;
            assert(recs[i] == p[i]);
            assert forall|j: int| 0 <= j < i implies (#[trigger] recs[j]).cwd is None by {
                assert(recs[j] == p[j]);
            }
            assert(p[i].cwd is Some);
        }
    }
}

/// A user-message excerpt is one line of at most 80 characters.
pub proof fn law_excerpt_is_one_short_line(raw: Seq<char>)
    ensures
        excerpt_text(raw).len() <= 80,
        !excerpt_text(raw).contains('\n'),
{
    let spaced = newlines_to_spaces(raw);
    let c = trim_start(spaced);
    lemma_trim_start_suffix(spaced);
    assert forall|i: int| 0 <= i < c.len() implies #[trigger] c[i] != '\n' by {
        assert(c[i] == spaced[i + spaced.len() - c.len()]);
    }
    if c.len() > 80 {
        let e = c.take(79).push('…');
        assert forall|i: int| 0 <= i < e.len() implies #[trigger] e[i] != '\n' by {
            if i < 79 {
                assert(e[i] == c[i]);
            }
        }
    }
}

/// Collapses a message to a one-line excerpt of at most 80 characters.
pub fn normalize_excerpt(raw: &str) -> (r: String)
    ensures
        r@ == excerpt_text(raw@),
{
    let chars = chars_of(raw);
    let mut spaced: Vec<char> = Vec::new();
    let mut i: usize = 0;
    while i < chars.len()
        invariant
            0 <= i <= chars@.len(),
            chars@ == raw@,
            spaced@ == newlines_to_spaces(raw@).take(i as int),
        decreases chars.len() - i,
    {
        let c = chars[i];
        spaced.push(if c == '\n' { ' ' } else { c });
        assert(spaced@ =~= newlines_to_spaces(raw@).take(i + 1));
        i = i + 1;
    }
    assert(spaced@ =~= newlines_to_spaces(raw@));
    let k = leading_whitespace(&spaced);
    let ghost c = trim_start(spaced@);
    let n = spaced.len() - k;
    let keep: usize = if n <= 80 { n } else { 79 };
    let mut out = String::new();
    let mut j: usize = 0;
    while j < keep
        invariant
            0 <= j <= keep,
            keep <= n,
            n == c.len(),
            k + n == spaced@.len(),
            spaced@.len() == spaced.len(),
            c == spaced@.skip(k as int),
            out@ == c.take(j as int),
        decreases keep - j,
    {
        assert(k + j < spaced@.len());
        push_char(&mut out, spaced[k + j]);
        assert(out@ =~= c.take(j + 1));
        j = j + 1;
    }
    if n > 80 {
        push_char(&mut out, '…');
    } else {
        assert(c.take(n as int) =~= c);
    }
    out
}

/// The text of a user message: its string `content`, else the first text
/// block of its `content` array.
pub fn extract_user_text(message: &JsonValue) -> (r: Option<String>)
    ensures
        opt_view(r) == user_text(message@),
{
    match get(message, "content") {
        Some(JsonValue::Str(s)) => Some(s.clone()),
        Some(JsonValue::Array(a)) => {
            let ghost av = get_v(message@, "content"@)->Some_0->Array_0;
            assert(av.len() == a@.len());
            assert(av.subrange(0, av.len() as int) =~= av);
            let mut i: usize = 0;
            while i < a.len()
                invariant
                    0 <= i <= a@.len(),
                    av.len() == a@.len(),
                    forall|j: int| 0 <= j < a@.len() ==> #[trigger] av[j] == json_view(a@[j]),
                    user_text(message@) == first_text_block(av.subrange(i as int, av.len() as int)),
                decreases a.len() - i,
            {
                let ghost rest = av.subrange(i as int, av.len() as int);
                assert(rest[0] == av[i as int]);
                assert(rest.drop_first() =~= av.subrange(i + 1, av.len() as int));
                let is_text = match str_member_of(&a[i], "type") {
                    Some(t) => crate::text::eq_str(&t, "text"),
                    None => false,
                };
                if is_text {
                    match str_member_of(&a[i], "text") {
                        Some(t) => {
                            return Some(t);
                        },
                        None => {},
                    }
                }
                i = i + 1;
            }
            None
        },
        _ => None,
    }
}

/// The string member `key` of a record's unmodelled members.
fn extra_str(extra: &Vec<JsonMember>, key: &str) -> (r: Option<String>)
    ensures
        opt_view(r) == match member_value_of(members_view(extra@), key@) {
            Some(v) => as_str_v(v),
            None => None,
        },
{
    let ghost mv = members_view(extra@);
    let key_s = key.to_owned();
    assert(mv.subrange(0, mv.len() as int) =~= mv);
    let mut i: usize = 0;
    while i < extra.len()
        invariant
            0 <= i <= extra@.len(),
            mv == members_view(extra@),
            key_s@ == key@,
            member_value_of(mv, key@) == member_value_of(mv.subrange(i as int, mv.len() as int), key@),
        decreases extra.len() - i,
    {
        let ghost rest = mv.subrange(i as int, mv.len() as int);
        assert(rest[0] == mv[i as int]);
        if extra[i].key == key_s {
            return match as_str(&extra[i].value) {
                Some(t) => Some(t.to_owned()),
                None => None,
            };
        }
        assert(rest.drop_first() =~= mv.subrange(i + 1, mv.len() as int));
        i = i + 1;
    }
    None
}

/// The counts of a `toolStats` member, where there is one.
fn parse_tool_stats(v: Option<&JsonValue>) -> (r: Option<ToolStats>)
    ensures
        r == match v {
            Some(x) => Some(list_stats(stats_of(x@))),
            None => None,
        },
{
    match v {
        Some(x) => {
            let s: TaskStats = parse_task_stats(x);
            Some(
                ToolStats {
                    read_count: s.read_count,
                    search_count: s.search_count,
                    bash_count: s.bash_count,
                    edit_file_count: s.edit_file_count,
                    lines_added: s.lines_added,
                    lines_removed: s.lines_removed,
                    other_tool_count: s.other_tool_count,
                },
            )
        },
        None => None,
    }
}

/// The summary of a finished `Task` launch from its result payload.
pub fn build_subagent_summary(payload: Option<&JsonValue>, tool_use_id: String) -> (r: SubagentSummary)
    ensures
        r@ == summary_of(
            match payload {
                Some(p) => Some(p@),
                None => None,
            },
            tool_use_id@,
        ),
{
    match payload {
        Some(p) => SubagentSummary {
            agent_id: match str_member_of(p, "agentId") {
                Some(s) => s,
                None => String::new(),
            },
            agent_type: match str_member_of(p, "agentType") {
                Some(s) => s,
                None => String::new(),
            },
            tool_use_id,
            description: None,
            status: match str_member_of(p, "status") {
                Some(s) => s,
                None => "unknown".to_owned(),
            },
            total_duration_ms: u64_member_of(p, "totalDurationMs"),
            total_tokens: u64_member_of(p, "totalTokens"),
            total_tool_use_count: u64_member_of(p, "totalToolUseCount"),
            tool_stats: parse_tool_stats(get(p, "toolStats")),
            log_path: None,
        },
        None => SubagentSummary {
            agent_id: String::new(),
            agent_type: String::new(),
            tool_use_id,
            description: None,
            status: "unknown".to_owned(),
            total_duration_ms: None,
            total_tokens: None,
            total_tool_use_count: None,
            tool_stats: None,
            log_path: None,
        },
    }
}


/// A `Task` launch, as the pass tracks it.
enum TaskSlot {
    Pending(String),
    Done(SubagentSummary),
    Dead,
}

impl View for TaskSlot {
    type V = TaskSlotV;

    closed spec fn view(&self) -> TaskSlotV {
        match *self {
            TaskSlot::Pending(id) => TaskSlotV::Pending(id@),
            TaskSlot::Done(s) => TaskSlotV::Done(s@),
            TaskSlot::Dead => TaskSlotV::Dead,
        }
    }
}

spec fn slots_view(v: Seq<TaskSlot>) -> Seq<TaskSlotV> {
    v.map_values(|s: TaskSlot| s@)
}

/// The texts of a list of strings.
pub open spec fn texts(v: Seq<String>) -> Seq<Seq<char>> {
    v.map_values(|s: String| s@)
}

fn clone_opt(o: &Option<String>) -> (r: Option<String>)
    ensures
        opt_view(r) == opt_view(*o),
{
    match o {
        Some(s) => Some(s.clone()),
        None => None,
    }
}

fn clone_summary(s: &SubagentSummary) -> (r: SubagentSummary)
    ensures
        r@ == s@,
{
    SubagentSummary {
        agent_id: s.agent_id.clone(),
        agent_type: s.agent_type.clone(),
        tool_use_id: s.tool_use_id.clone(),
        description: clone_opt(&s.description),
        status: s.status.clone(),
        total_duration_ms: s.total_duration_ms,
        total_tokens: s.total_tokens,
        total_tool_use_count: s.total_tool_use_count,
        tool_stats: match &s.tool_stats {
            Some(t) => Some(
                ToolStats {
                    read_count: t.read_count,
                    search_count: t.search_count,
                    bash_count: t.bash_count,
                    edit_file_count: t.edit_file_count,
                    lines_added: t.lines_added,
                    lines_removed: t.lines_removed,
                    other_tool_count: t.other_tool_count,
                },
            ),
            None => None,
        },
        log_path: clone_opt(&s.log_path),
    }
}

/// Adds `id` to a set of ids kept as a list without repeats.
fn open_insert(open: &mut Vec<String>, id: &String)
    requires
        texts(old(open)@).no_duplicates(),
    ensures
        texts(final(open)@).no_duplicates(),
        texts(final(open)@).to_set() == texts(old(open)@).to_set().insert(id@),
{
    let ghost t0 = texts(open@);
    let mut i: usize = 0;
    while i < open.len()
        invariant
            0 <= i <= open@.len(),
            open@ == old(open)@,
            t0 == texts(open@),
            t0.no_duplicates(),
            forall|j: int| 0 <= j < i ==> (#[trigger] t0[j]) != id@,
        decreases open.len() - i,
    {
        if open[i] == *id {
            assert(t0[i as int] == id@);
            assert(t0.contains(id@));
            assert(t0.to_set().insert(id@) =~= t0.to_set());
            return;
        }
        i = i + 1;
    }
    open.push(id.clone());
    let ghost t1 = texts(open@);
    assert(t1 =~= t0.push(id@));
    assert forall|a: int, b: int| 0 <= a < t1.len() && 0 <= b < t1.len() && a != b implies t1[a]
        != t1[b] by {
        if a < t0.len() && b < t0.len() {
            assert(t1[a] == t0[a] && t1[b] == t0[b]);
        }
    }
    assert forall|x: Seq<char>| #[trigger] t1.to_set().contains(x) <==> t0.to_set().insert(id@).contains(x) by {
        if t1.contains(x) {
            let k = choose|k: int| 0 <= k < t1.len() && t1[k] == x;
            if k < t0.len() {
                assert(t0[k] == x);
            }
        }
        if t0.contains(x) {
            let k = choose|k: int| 0 <= k < t0.len() && t0[k] == x;
            assert(t1[k] == x);
        }
        if x == id@ {
            assert(t1[t0.len() as int] == x);
        }
    }
    assert(t1.to_set() =~= t0.to_set().insert(id@));
}

/// Removes `id` from a set of ids kept as a list without repeats.
fn open_remove(open: &mut Vec<String>, id: &String)
    requires
        texts(old(open)@).no_duplicates(),
    ensures
        texts(final(open)@).no_duplicates(),
        texts(final(open)@).to_set() == texts(old(open)@).to_set().remove(id@),
{
    let ghost t0 = texts(open@);
    let mut i: usize = 0;
    while i < open.len()
        invariant
            0 <= i <= open@.len(),
            open@ == old(open)@,
            t0 == texts(open@),
            t0.no_duplicates(),
            forall|j: int| 0 <= j < i ==> (#[trigger] t0[j]) != id@,
        decreases open.len() - i,
    {
        if open[i] == *id {
            let _ = open.remove(i);
            let ghost t1 = texts(open@);
            assert(t1 =~= t0.remove(i as int));
            assert forall|a: int, b: int| 0 <= a < t1.len() && 0 <= b < t1.len() && a != b implies t1[a]
                != t1[b] by {
                let a0 = if a < i { a } else { a + 1 };
                let b0 = if b < i { b } else { b + 1 };
                assert(t1[a] == t0[a0] && t1[b] == t0[b0]);
            }
            assert(t0[i as int] == id@);
            assert forall|x: Seq<char>| #[trigger] t1.contains(x) <==> (t0.contains(x) && x != id@) by {
                if t1.contains(x) {
                    let k = choose|k: int| 0 <= k < t1.len() && t1[k] == x;
                    let k0 = if k < i { k } else { k + 1 };
                    assert(t0[k0] == x);
                    assert(k0 != i);
                }
                if t0.contains(x) && x != id@ {
                    let k = choose|k: int| 0 <= k < t0.len() && t0[k] == x;
                    assert(k != i);
                    if k < i {
                        assert(t1[k] == x);
                    } else {
                        assert(t1[k - 1] == x);
                    }
                }
            }
            assert(t1.to_set() =~= t0.to_set().remove(id@));
            return;
        }
        i = i + 1;
    }
    assert(!t0.contains(id@));
    assert(t0.to_set().remove(id@) =~= t0.to_set());
}

/// Marks the launch waiting under `id` as superseded.
fn supersede_slots(slots: &mut Vec<TaskSlot>, id: &String)
    ensures
        slots_view(final(slots)@) == supersede(slots_view(old(slots)@), id@),
{
    let ghost s0 = slots_view(slots@);
    let mut i: usize = 0;
    while i < slots.len()
        invariant
            0 <= i <= slots@.len(),
            s0.len() == slots@.len(),
            forall|j: int| 0 <= j < i ==> #[trigger] slots@[j]@ == (if s0[j] == TaskSlotV::Pending(
                id@,
            ) {
                TaskSlotV::Dead
            } else {
                s0[j]
            }),
            forall|j: int| i <= j < slots@.len() ==> #[trigger] slots@[j]@ == s0[j],
        decreases slots.len() - i,
    {
        assert(s0[i as int] == slots@[i as int]@);
        let hit = match &slots[i] {
            TaskSlot::Pending(p) => *p == *id,
            _ => false,
        };
        assert(hit == (s0[i as int] == TaskSlotV::Pending(id@)));
        if hit {
            slots.set(i, TaskSlot::Dead);
        }
        i = i + 1;
    }
    assert(slots_view(slots@) =~= supersede(s0, id@));
}

/// Finishes the launch waiting under `id` with summary `s`.
fn finish_slots(slots: &mut Vec<TaskSlot>, id: &String, s: &SubagentSummary)
    ensures
        slots_view(final(slots)@) == finish(slots_view(old(slots)@), id@, s@),
{
    let ghost s0 = slots_view(slots@);
    let mut i: usize = 0;
    while i < slots.len()
        invariant
            0 <= i <= slots@.len(),
            s0.len() == slots@.len(),
            forall|j: int| 0 <= j < i ==> #[trigger] slots@[j]@ == (if s0[j] == TaskSlotV::Pending(
                id@,
            ) {
                TaskSlotV::Done(s@)
            } else {
                s0[j]
            }),
            forall|j: int| i <= j < slots@.len() ==> #[trigger] slots@[j]@ == s0[j],
        decreases slots.len() - i,
    {
        assert(s0[i as int] == slots@[i as int]@);
        let hit = match &slots[i] {
            TaskSlot::Pending(p) => *p == *id,
            _ => false,
        };
        assert(hit == (s0[i as int] == TaskSlotV::Pending(id@)));
        if hit {
            slots.set(i, TaskSlot::Done(clone_summary(s)));
        }
        i = i + 1;
    }
    assert(slots_view(slots@) =~= finish(s0, id@, s@));
}

/// The text without its leading whitespace.
fn trimmed_start(s: &str) -> (r: String)
    ensures
        r@ == trim_start(s@),
{
    let chars = chars_of(s);
    let k = leading_whitespace(&chars);
    let mut out = String::new();
    let mut j: usize = k;
    while j < chars.len()
        invariant
            k <= j <= chars@.len(),
            out@ == chars@.subrange(k as int, j as int),
        decreases chars.len() - j,
    {
        push_char(&mut out, chars[j]);
        assert(out@ =~= chars@.subrange(k as int, j + 1));
        j = j + 1;
    }
    assert(chars@.subrange(k as int, chars@.len() as int) =~= chars@.skip(k as int));
    out
}

/// The excerpt a record gives, where it is a real user message.
fn excerpt_of_record(r: &JsonlRecord) -> (e: Option<String>)
    ensures
        opt_view(e) == excerpt_candidate(*r),
{
    if !crate::text::eq_str(&r.record_type, "user") {
        return None;
    }
    let is_meta = match r.is_meta {
        Some(b) => b,
        None => false,
    };
    if is_meta || r.source_tool_use_id.is_some() {
        return None;
    }
    match &r.message {
        None => None,
        Some(m) => match extract_user_text(m) {
            None => None,
            Some(t) => {
                let trimmed = trimmed_start(t.as_str());
                if str_starts_with(trimmed.as_str(), "<command-name>") {
                    None
                } else {
                    Some(normalize_excerpt(t.as_str()))
                }
            },
        },
    }
}

/// The state of the pass, as the code keeps it.
struct Pass {
    started_at: Option<String>,
    ended_at: Option<String>,
    cwd: Option<String>,
    ai_title: Option<String>,
    excerpt: Option<String>,
    open: Vec<String>,
    last_error: bool,
    slots: Vec<TaskSlot>,
}

spec fn pass_view(p: Pass) -> MetaState {
    MetaState {
        started_at: opt_view(p.started_at),
        ended_at: opt_view(p.ended_at),
        cwd: opt_view(p.cwd),
        ai_title: opt_view(p.ai_title),
        excerpt: opt_view(p.excerpt),
        open: texts(p.open@).to_set(),
        last_error: p.last_error,
        slots: slots_view(p.slots@),
    }
}

spec fn pass_wf(p: Pass) -> bool {
    texts(p.open@).no_duplicates()
}

impl Pass {
    fn take_header(&mut self, r: &JsonlRecord)
        requires
            pass_wf(*old(self)),
        ensures
            pass_wf(*final(self)),
            pass_view(*final(self)) == header_step(pass_view(*old(self)), *r),
    {
        match &r.timestamp {
            Some(ts) => {
                if self.started_at.is_none() {
                    self.started_at = Some(ts.clone());
                }
                self.ended_at = Some(ts.clone());
            },
            None => {},
        }
        if self.cwd.is_none() {
            self.cwd = clone_opt(&r.cwd);
        }
        if crate::text::eq_str(&r.record_type, "ai-title") {
            match extra_str(&r.extra, "title") {
                Some(t) => {
                    self.ai_title = Some(t);
                },
                None => match &r.message {
                    Some(m) => match str_member_of(m, "content") {
                        Some(c) => {
                            self.ai_title = Some(c);
                        },
                        None => {},
                    },
                    None => {},
                },
            }
        }
        if self.excerpt.is_none() {
            self.excerpt = excerpt_of_record(r);
        }
        assert(pass_view(*self).open =~= header_step(pass_view(*old(self)), *r).open);
    }

    fn take_block(&mut self, r: &JsonlRecord, b: &ContentBlock)
        requires
            pass_wf(*old(self)),
        ensures
            pass_wf(*final(self)),
            pass_view(*final(self)) == block_step(pass_view(*old(self)), *r, b@),
    {
        match b {
            ContentBlock::ToolUse { id, name, .. } => {
                open_insert(&mut self.open, id);
                if crate::text::eq_str(name, "Task") {
                    supersede_slots(&mut self.slots, id);
                    self.slots.push(TaskSlot::Pending(id.clone()));
                    assert(slots_view(self.slots@) =~= supersede(
                        slots_view(old(self).slots@),
                        id@,
                    ).push(TaskSlotV::Pending(id@)));
                }
            },
            ContentBlock::ToolResult { tool_use_id, is_error, .. } => {
                open_remove(&mut self.open, tool_use_id);
                self.last_error = *is_error;
                let payload = match &r.tool_use_result {
                    Some(v) => Some(v),
                    None => None,
                };
                let s = build_subagent_summary(payload, tool_use_id.clone());
                finish_slots(&mut self.slots, tool_use_id, &s);
            },
            ContentBlock::Text { .. } => {},
        }
    }

    fn take_record(&mut self, r: &JsonlRecord)
        requires
            pass_wf(*old(self)),
        ensures
            pass_wf(*final(self)),
            pass_view(*final(self)) == record_step(pass_view(*old(self)), *r),
    {
        self.take_header(r);
        let ghost h = pass_view(*self);
        let blocks = content_blocks(r);
        let ghost bv = record_blocks(*r);
        let mut j: usize = 0;
        while j < blocks.len()
            invariant
                0 <= j <= blocks@.len(),
                bv == record_blocks(*r),
                crate::parser::record::blocks_view(blocks@) == bv,
                pass_wf(*self),
                pass_view(*self) == blocks_step(h, *r, bv.take(j as int)),
            decreases blocks.len() - j,
        {
            assert(bv.take(j + 1).drop_last() =~= bv.take(j as int));
            assert(bv[j as int] == blocks@[j as int]@);
            self.take_block(r, &blocks[j]);
            j = j + 1;
        }
        assert(bv.take(bv.len() as int) =~= bv);
    }
}

/// The summaries of the launches, in launch order.
fn summaries_of(slots: &Vec<TaskSlot>) -> (r: Vec<SubagentSummary>)
    ensures
        summaries_view(r@) == slot_summaries(slots_view(slots@)),
{
    let ghost sv = slots_view(slots@);
    let mut out: Vec<SubagentSummary> = Vec::new();
    let mut i: usize = 0;
    while i < slots.len()
        invariant
            0 <= i <= slots@.len(),
            sv == slots_view(slots@),
            summaries_view(out@) == slot_summaries(sv.take(i as int)),
        decreases slots.len() - i,
    {
        assert(sv.take(i + 1).drop_last() =~= sv.take(i as int));
        assert(sv[i as int] == slots@[i as int]@);
        let ghost before = out@;
        match &slots[i] {
            TaskSlot::Pending(id) => {
                out.push(
                    SubagentSummary {
                        agent_id: String::new(),
                        agent_type: String::new(),
                        tool_use_id: id.clone(),
                        description: None,
                        status: "aborted".to_owned(),
                        total_duration_ms: None,
                        total_tokens: None,
                        total_tool_use_count: None,
                        tool_stats: None,
                        log_path: None,
                    },
                );
                assert(summaries_view(out@) =~= summaries_view(before).push(aborted_summary(id@)));
            },
            TaskSlot::Done(s) => {
                out.push(clone_summary(s));
                assert(summaries_view(out@) =~= summaries_view(before).push(s@));
            },
            TaskSlot::Dead => {},
        }
        i = i + 1;
    }
    assert(sv.take(sv.len() as int) =~= sv);
    out
}

/// Gathers a session's listing facts from its records, in one pass.
pub fn extract_session_metadata(records: &[JsonlRecord]) -> (m: SessionMetadata)
    ensures
        is_metadata_of(m, records@),
{
    let mut p = Pass {
        started_at: None,
        ended_at: None,
        cwd: None,
        ai_title: None,
        excerpt: None,
        open: Vec::new(),
        last_error: false,
        slots: Vec::new(),
    };
    assert(pass_view(p).open =~= Set::empty());
    assert(pass_view(p).slots =~= Seq::empty());
    let mut i: usize = 0;
    while i < records.len()
        invariant
            0 <= i <= records@.len(),
            pass_wf(p),
            pass_view(p) == meta_of(records@.take(i as int)),
        decreases records.len() - i,
    {
        assert(records@.take(i + 1).drop_last() =~= records@.take(i as int));
        p.take_record(&records[i]);
        i = i + 1;
    }
    assert(records@.take(records@.len() as int) =~= records@);
    proof {
        texts(p.open@).unique_seq_to_set();
    }
    let subagents = summaries_of(&p.slots);
    SessionMetadata {
        started_at: p.started_at,
        ended_at: p.ended_at,
        cwd: p.cwd,
        ai_title: p.ai_title,
        first_user_message_excerpt: p.excerpt,
        open_tool_uses: p.open.len(),
        last_tool_result_is_error: p.last_error,
        subagents,
        read_error: false,
    }
}

/// The metadata of a session whose log could not be opened.
pub fn unreadable_metadata() -> (m: SessionMetadata)
    ensures
        is_unreadable_metadata(m),
{
    SessionMetadata {
        started_at: None,
        ended_at: None,
        cwd: None,
        ai_title: None,
        first_user_message_excerpt: None,
        open_tool_uses: 0,
        last_tool_result_is_error: false,
        subagents: Vec::new(),
        read_error: true,
    }
}

/// `m` is the metadata of a session whose records are `recs`.
pub open spec fn is_metadata_of(m: SessionMetadata, recs: Seq<JsonlRecord>) -> bool {
    let st = meta_of(recs);
    &&& opt_view(m.started_at) == st.started_at
    &&& opt_view(m.ended_at) == st.ended_at
    &&& opt_view(m.cwd) == st.cwd
    &&& opt_view(m.ai_title) == st.ai_title
    &&& opt_view(m.first_user_message_excerpt) == st.excerpt
    &&& m.open_tool_uses == st.open.len()
    &&& m.last_tool_result_is_error == st.last_error
    &&& summaries_view(m.subagents@) == slot_summaries(st.slots)
    &&& !m.read_error
}

/// `m` is the metadata of a session that could not be read.
pub open spec fn is_unreadable_metadata(m: SessionMetadata) -> bool {
    &&& m.started_at is None
    &&& m.ended_at is None
    &&& m.cwd is None
    &&& m.ai_title is None
    &&& m.first_user_message_excerpt is None
    &&& m.open_tool_uses == 0
    &&& !m.last_tool_result_is_error
    &&& m.subagents@.len() == 0
    &&& m.read_error
}

} // verus!
