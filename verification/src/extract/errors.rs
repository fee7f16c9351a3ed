//! Failed tool calls, classified. A `tool_result` block with `is_error` set
//! becomes one `ErrorRecord`; the ordered rules UserRejection ->
//! PermissionDenied -> HookBlock -> Technical decide its category, the first
//! that matches winning.

use vstd::prelude::*;

use crate::extract::{
    content_blocks, count_error_results, content_string, keyed_view, lookup_last, lookup_last_of, record_blocks,
    tool_use_names, use_pairs, value_to_content_string,
};
use crate::json::{JsonV, JsonValue};
use crate::parser::record::{blocks_view, ojson, ostr, BlockV, ContentBlock, JsonlRecord};
use crate::text::{starts_with, str_starts_with, take_chars, truncate_chars};

verus! {

/// The four error categories.
#[derive(Debug, Clone, Copy, PartialEq, Eq, Structural)]
pub enum ErrorCategory {
    UserRejection,
    PermissionDenied,
    HookBlock,
    Technical,
}

/// One failed tool call.
pub struct ErrorRecord {
    pub category: ErrorCategory,
    pub tool_name: String,
    pub tool_use_id: String,
    pub excerpt: String,
    pub timestamp: String,
}

/// The model of an `ErrorRecord`.
pub struct ErrorRecordV {
    pub category: ErrorCategory,
    pub tool_name: Seq<char>,
    pub tool_use_id: Seq<char>,
    pub excerpt: Seq<char>,
    pub timestamp: Seq<char>,
}

impl View for ErrorRecord {
    type V = ErrorRecordV;

    open spec fn view(&self) -> ErrorRecordV {
        ErrorRecordV {
            category: self.category,
            tool_name: self.tool_name@,
            tool_use_id: self.tool_use_id@,
            excerpt: self.excerpt@,
            timestamp: self.timestamp@,
        }
    }
}

/// The model of a list of error records.
pub open spec fn errors_view(v: Seq<ErrorRecord>) -> Seq<ErrorRecordV> {
    v.map_values(|e: ErrorRecord| e@)
}

/// How many characters of a tool result an excerpt keeps.
pub const EXCERPT_MAX_CHARS: usize = 200;

/// The category of an error: UserRejection only where the enclosing
/// record's `toolUseResult` is the JSON string "User rejected tool use" (an
/// object-valued one never matches); then the content's prefix decides.
pub open spec fn category_of(tool_use_result: Option<JsonV>, content: Seq<char>) -> ErrorCategory {
    if tool_use_result == Some(JsonV::Str("User rejected tool use"@)) {
        ErrorCategory::UserRejection
    } else if starts_with(content, "Permission to use "@) {
        ErrorCategory::PermissionDenied
    } else if starts_with(content, "PreToolUse:"@) {
        ErrorCategory::HookBlock
    } else {
        ErrorCategory::Technical
    }
}

/// Classifies one failed tool call.
pub fn classify(tool_use_result: Option<&JsonValue>, content: &str) -> (r: ErrorCategory)
    ensures
        r == category_of(
            match tool_use_result {
                Some(v) => Some(v@),
                None => None,
            },
            content@,
        ),
{
    if let Some(JsonValue::Str(s)) = tool_use_result {
        if crate::text::eq_str(s, "User rejected tool use") {
            return ErrorCategory::UserRejection;
        }
    }
    if str_starts_with(content, "Permission to use ") {
        ErrorCategory::PermissionDenied
    } else if str_starts_with(content, "PreToolUse:") {
        ErrorCategory::HookBlock
    } else {
        ErrorCategory::Technical
    }
}

/// The name the `tool_use` with id `id` was launched under, or the literal
/// `<unknown>` where no `tool_use` carries that id.
pub open spec fn resolved_tool_name(names: Seq<(Seq<char>, Seq<char>)>, id: Seq<char>) -> Seq<char> {
    match lookup_last(names, id) {
        Some(n) => n,
        None => "<unknown>"@,
    }
}

/// The error record of one failed `tool_result` block of record `r`.
pub open spec fn error_of(
    names: Seq<(Seq<char>, Seq<char>)>,
    r: JsonlRecord,
    id: Seq<char>,
    content: JsonV,
) -> ErrorRecordV {
    ErrorRecordV {
        category: category_of(ojson(r.tool_use_result), content_string(content)),
        tool_name: resolved_tool_name(names, id),
        tool_use_id: id,
        excerpt: take_chars(content_string(content), EXCERPT_MAX_CHARS as nat),
        timestamp: match ostr(r.timestamp) {
            Some(t) => t,
            None => Seq::empty(),
        },
    }
}

/// The errors among the blocks `bs` of record `r`, in order.
pub open spec fn errors_of_blocks(
    names: Seq<(Seq<char>, Seq<char>)>,
    r: JsonlRecord,
    bs: Seq<BlockV>,
) -> Seq<ErrorRecordV>
    decreases bs.len(),
{
    if bs.len() == 0 {
        Seq::empty()
    } else {
        let rest = errors_of_blocks(names, r, bs.drop_last());
        match bs.last() {
            BlockV::ToolResult { tool_use_id, content, is_error, .. } => if is_error {
                rest.push(error_of(names, r, tool_use_id, content))
            } else {
                rest
            },
            _ => rest,
        }
    }
}

/// The errors of the records, in document order.
pub open spec fn errors_of_records(
    names: Seq<(Seq<char>, Seq<char>)>,
    recs: Seq<JsonlRecord>,
) -> Seq<ErrorRecordV>
    decreases recs.len(),
{
    if recs.len() == 0 {
        Seq::empty()
    } else {
        errors_of_records(names, recs.drop_last()) + errors_of_blocks(
            names,
            recs.last(),
            record_blocks(recs.last()),
        )
    }
}

/// Every failed tool call of a session, in document order, with the tool
/// names resolved over the whole session.
pub open spec fn session_errors(recs: Seq<JsonlRecord>) -> Seq<ErrorRecordV> {
    errors_of_records(use_pairs(recs), recs)
}

/// The failed `tool_result` blocks of the records, counted.
pub open spec fn failed_results(recs: Seq<JsonlRecord>) -> nat
    decreases recs.len(),
{
    if recs.len() == 0 {
        0
    } else {
        failed_results(recs.drop_last()) + count_error_results(record_blocks(recs.last()))
    }
}

proof fn lemma_errors_of_blocks_count(names: Seq<(Seq<char>, Seq<char>)>, r: JsonlRecord, bs: Seq<BlockV>)
    ensures
        errors_of_blocks(names, r, bs).len() == count_error_results(bs),
    decreases bs.len(),
{
    if bs.len() > 0 {
        lemma_errors_of_blocks_count(names, r, bs.drop_last());
    }
}

/// One error record per failed `tool_result` block: a session has exactly
/// as many errors as failed results.
pub proof fn law_one_error_per_failed_result(recs: Seq<JsonlRecord>)
    ensures
        session_errors(recs).len() == failed_results(recs),
{
    lemma_errors_count(use_pairs(recs), recs);
}

proof fn lemma_errors_count(names: Seq<(Seq<char>, Seq<char>)>, recs: Seq<JsonlRecord>)
    ensures
        errors_of_records(names, recs).len() == failed_results(recs),
    decreases recs.len(),
{
    if recs.len() > 0 {
        lemma_errors_count(names, recs.drop_last());
        lemma_errors_of_blocks_count(names, recs.last(), record_blocks(recs.last()));
    }
}

/// The order in which a failed call is classified: a `toolUseResult` of
/// exactly "User rejected tool use" makes a UserRejection whatever the
/// content says; otherwise content starting "Permission to use " is a
/// PermissionDenied, content starting "PreToolUse:" a HookBlock, and any
/// other failure Technical.
pub proof fn law_classification_order(tool_use_result: Option<JsonV>, content: Seq<char>)
    ensures
        tool_use_result == Some(JsonV::Str("User rejected tool use"@)) ==> category_of(
            tool_use_result,
            content,
        ) == ErrorCategory::UserRejection,
        tool_use_result != Some(JsonV::Str("User rejected tool use"@)) ==> (category_of(
            tool_use_result,
            content,
        ) == ErrorCategory::PermissionDenied <==> starts_with(content, "Permission to use "@)),
        tool_use_result != Some(JsonV::Str("User rejected tool use"@)) && !starts_with(
            content,
            "Permission to use "@,
        ) ==> (category_of(tool_use_result, content) == ErrorCategory::HookBlock <==> starts_with(
            content,
            "PreToolUse:"@,
        )),
        category_of(tool_use_result, content) == ErrorCategory::Technical <==> (tool_use_result
            != Some(JsonV::Str("User rejected tool use"@)) && !starts_with(content, "Permission to use "@)
            && !starts_with(content, "PreToolUse:"@)),
{
}

/// Extracts every failed tool call: one record per `tool_result` block with
/// `is_error` set, in document order. The tool name comes from the
/// `tool_use` with the same id (`<unknown>` where there is none), the excerpt
/// is the first 200 characters of the content, and the timestamp is the
/// enclosing record's (empty where it has none).
pub fn extract_errors(records: &[JsonlRecord]) -> (r: Vec<ErrorRecord>)
    ensures
        errors_view(r@) == session_errors(records@),
{
    let names = tool_use_names(records);
    let ghost nv = keyed_view(names@);
    let mut out: Vec<ErrorRecord> = Vec::new();
    let mut i: usize = 0;
    while i < records.len()
        invariant
            0 <= i <= records@.len(),
            nv == keyed_view(names@),
            nv == use_pairs(records@),
            errors_view(out@) == errors_of_records(nv, records@.take(i as int)),
        decreases records.len() - i,
    {
        let record = &records[i];
        let blocks = content_blocks(record);
        let ghost bv = blocks_view(blocks@);
        let ghost base = out@;
        let mut j: usize = 0;
        while j < blocks.len()
            invariant
                0 <= j <= blocks@.len(),
                bv == blocks_view(blocks@),
                nv == keyed_view(names@),
                *record == records@[i as int],
                errors_view(out@) == errors_view(base) + errors_of_blocks(nv, *record, bv.take(j as int)),
            decreases blocks.len() - j,
        {
            assert(bv.take(j + 1).drop_last() =~= bv.take(j as int));
            let ghost before = out@;
            if let ContentBlock::ToolResult { tool_use_id, content, is_error, .. } = &blocks[j] {
                if *is_error {
                    let content_string = value_to_content_string(content);
                    let category = classify(record.tool_use_result.as_ref(), content_string.as_str());
                    let tool_name = match lookup_last_of(&names, tool_use_id) {
                        Some(n) => n.clone(),
                        None => String::from_str("<unknown>"),
                    };
                    let timestamp = match &record.timestamp {
                        Some(t) => t.clone(),
                        None => String::new(),
                    };
                    let e = ErrorRecord {
                        category,
                        tool_name,
                        tool_use_id: tool_use_id.clone(),
                        excerpt: truncate_chars(content_string.as_str(), EXCERPT_MAX_CHARS),
                        timestamp,
                    };
                    out.push(e);
                    assert(e@ == error_of(nv, *record, tool_use_id@, content@));
                    assert(errors_view(out@) =~= errors_view(before).push(e@));
                }
            }
            j = j + 1;
        }
        assert(bv.take(bv.len() as int) =~= bv);
        assert(records@.take(i + 1).drop_last() =~= records@.take(i as int));
        assert(errors_view(out@) =~= errors_of_records(nv, records@.take(i + 1)));
        i = i + 1;
    }
    assert(records@.take(records@.len() as int) =~= records@);
    out
}

} // verus!
