//! Report assembly: one pass over a session's lines, every extractor run
//! over the same records.

use vstd::prelude::*;

use crate::extract::errors::{errors_view, extract_errors, session_errors, ErrorRecord};
use crate::extract::interventions::{
    extract_interventions, interventions_view, session_interventions, Intervention,
};
use crate::extract::skills::{extract_skills, session_skills, skills_view, SkillInvocation};
use crate::extract::subagents::{
    extract_subagents, session_subagents, subagents_view, SubagentFiles, SubagentInvocation,
};
use crate::extract::tools::{extract_tools, is_session_tools, usages_view, ToolUsage};
use crate::extract::keyed_view;
use crate::json::{JsonV, JsonValue};
use crate::locator::{lines_view, CwdSource, ResolvedSession};
use crate::parser::record::{decode_record, decodes_to, ostr, record_ok, JsonlRecord};

verus! {

/// The report of one session.
pub struct SessionReport {
    pub session_id: String,
    pub project_cwd: String,
    pub cwd_source: CwdSource,
    pub log_path: String,
    pub started_at: String,
    pub ended_at: String,
    pub record_count: usize,
    pub skills: Vec<SkillInvocation>,
    pub subagents: Vec<SubagentInvocation>,
    pub tools: Vec<ToolUsage>,
    pub errors: Vec<ErrorRecord>,
    pub interventions: Vec<Intervention>,
}

/// The lines of a log, decoded: the records of the lines that decode, in
/// order, and the (0-based) numbers of those that do not.
pub struct ParsedLines {
    pub records: Vec<JsonlRecord>,
    pub malformed: Vec<usize>,
    pub line_count: usize,
}

/// `records` and `malformed` are what the lines `lines` decode to: each
/// line is either a record, in order, or malformed.
pub open spec fn lines_decode_to(
    lines: Seq<Option<JsonV>>,
    records: Seq<JsonlRecord>,
    malformed: Seq<usize>,
) -> bool
    decreases lines.len(),
{
    if lines.len() == 0 {
        records.len() == 0 && malformed.len() == 0
    } else {
        let last = lines.last();
        match last {
            Some(v) => if record_ok(v) {
                records.len() > 0 && decodes_to(v, records.last()) && lines_decode_to(
                    lines.drop_last(),
                    records.drop_last(),
                    malformed,
                )
            } else {
                malformed.len() > 0 && malformed.last() == lines.len() - 1 && lines_decode_to(
                    lines.drop_last(),
                    records,
                    malformed.drop_last(),
                )
            },
            None => malformed.len() > 0 && malformed.last() == lines.len() - 1 && lines_decode_to(
                lines.drop_last(),
                records,
                malformed.drop_last(),
            ),
        }
    }
}

/// Decodes every line of a log; a line that is not JSON or not a record is
/// skipped and its number kept, and streaming goes on past it.
pub fn parse_lines(lines: &Vec<Option<JsonValue>>) -> (r: ParsedLines)
    ensures
        r.line_count == lines@.len(),
        lines_decode_to(lines_view(lines@), r.records@, r.malformed@),
{
    let ghost lv = lines_view(lines@);
    let mut records: Vec<JsonlRecord> = Vec::new();
    let mut malformed: Vec<usize> = Vec::new();
    let mut i: usize = 0;
    while i < lines.len()
        invariant
            0 <= i <= lines@.len(),
            lv == lines_view(lines@),
            lines_decode_to(lv.take(i as int), records@, malformed@),
        decreases lines.len() - i,
    {
        let ghost (r0, m0) = (records@, malformed@);
        assert(lv.take(i + 1).drop_last() =~= lv.take(i as int));
        assert(lv.take(i + 1).last() == lv[i as int]);
        match &lines[i] {
            Some(v) => match decode_record(v) {
                Some(rec) => {
                    records.push(rec);
                    assert(records@.drop_last() =~= r0);
                },
                None => {
                    malformed.push(i);
                    assert(malformed@.drop_last() =~= m0);
                },
            },
            None => {
                malformed.push(i);
                assert(malformed@.drop_last() =~= m0);
            },
        }
        i = i + 1;
    }
    assert(lv.take(lv.len() as int) =~= lv);
    ParsedLines { records, malformed, line_count: lines.len() }
}

/// The timestamp of a record, empty where it has none.
pub open spec fn timestamp_or_empty(r: JsonlRecord) -> Seq<char> {
    match ostr(r.timestamp) {
        Some(t) => t,
        None => Seq::empty(),
    }
}

/// Assembles the report of a session from its decoded lines: the span is
/// the first and last record's timestamps, verbatim; `record_count` counts
/// every line, malformed ones included; the project fields come from the
/// located session; and each list is its extractor's result over the same
/// records.
pub fn build_report(
    resolved: &ResolvedSession,
    session_id: &str,
    parsed: &ParsedLines,
    files: &Vec<(String, SubagentFiles)>,
) -> (r: SessionReport)
    ensures
        r.session_id@ == session_id@,
        r.project_cwd@ == resolved.project_cwd@,
        r.cwd_source == resolved.cwd_source,
        r.log_path@ == resolved.jsonl_path@,
        r.started_at@ == if parsed.records@.len() > 0 {
            timestamp_or_empty(parsed.records@[0])
        } else {
            Seq::empty()
        },
        r.ended_at@ == if parsed.records@.len() > 0 {
            timestamp_or_empty(parsed.records@.last())
        } else {
            Seq::empty()
        },
        r.record_count == parsed.line_count,
        skills_view(r.skills@) == session_skills(parsed.records@),
        subagents_view(r.subagents@) == session_subagents(parsed.records@, keyed_view(files@)),
        is_session_tools(usages_view(r.tools@), parsed.records@),
        errors_view(r.errors@) == session_errors(parsed.records@),
        interventions_view(r.interventions@) == session_interventions(parsed.records@),
{
    let records = parsed.records.as_slice();
    let n = records.len();
    let started_at = if n > 0 {
        match &records[0].timestamp {
            Some(t) => t.clone(),
            None => String::new(),
        }
    } else {
        String::new()
    };
    let ended_at = if n > 0 {
        match &records[n - 1].timestamp {
            Some(t) => t.clone(),
            None => String::new(),
        }
    } else {
        String::new()
    };
    SessionReport {
        session_id: session_id.to_owned(),
        project_cwd: resolved.project_cwd.clone(),
        cwd_source: resolved.cwd_source,
        log_path: resolved.jsonl_path.clone(),
        started_at,
        ended_at,
        record_count: parsed.line_count,
        skills: extract_skills(records),
        subagents: extract_subagents(records, files),
        tools: extract_tools(records),
        errors: extract_errors(records),
        interventions: extract_interventions(records),
    }
}

} // verus!
