//! The human rendering of a session report: a header block (Session,
//! Project, Span, Records) and five sections (Skills, Subagents, Tools,
//! Errors, Interventions). Every section header is printed, with its count,
//! even when its list is empty. Timestamps are reformatted to second
//! precision with a `Z` suffix; a timestamp that does not parse is printed
//! as it is.

use vstd::prelude::*;

use crate::extract::errors::{errors_view, ErrorCategory, ErrorRecord, ErrorRecordV};
use crate::extract::interventions::{
    interventions_view, Intervention, InterventionKind, InterventionV,
};
use crate::extract::skills::{skills_view, SkillInvocation, SkillInvocationV};
use crate::extract::subagents::{subagents_view, SubagentInvocation, SubagentInvocationV};
use crate::extract::tools::{usages_view, ToolUsage, ToolUsageV};
use crate::report::SessionReport;
use crate::text::{
    decimal, eq_str, pad_end, pad_start, push_pad_end, push_pad_start, push_u64, push_usize, texts_view,
    lemma_decimal_digits, lemma_one_line_concat, lemma_widest_pads, one_line, widest, widest_of,
};
use crate::timestamps::{
    clock_text, rfc3339_clock_text, rfc3339_instant, rfc3339_seconds_between, rfc3339_stamp_text,
    seconds_between, stamp_text, whole_seconds_between,
};

verus! {

/// At most this many rows are shown in the Tools section.
pub const TOOLS_DISPLAY_LIMIT: usize = 10;

/// A timestamp at second precision with a `Z` suffix, or the text itself
/// where it does not parse.
pub open spec fn stamp_or_raw(raw: Seq<char>) -> Seq<char> {
    match rfc3339_stamp_text(raw) {
        Some(t) => t,
        None => raw,
    }
}

/// A timestamp's time of day with a `Z` suffix, or the text itself where it
/// does not parse.
pub open spec fn clock_or_raw(raw: Seq<char>) -> Seq<char> {
    match rfc3339_clock_text(raw) {
        Some(t) => t,
        None => raw,
    }
}

/// `Nh Mm` from an hour up, `Mm Ss` from a minute up, else `Ss`.
pub open spec fn duration_text(total: nat) -> Seq<char> {
    let h = total / 3600;
    let m = (total % 3600) / 60;
    let s = total % 60;
    if h > 0 {
        decimal(h) + "h "@ + decimal(m) + "m"@
    } else if m > 0 {
        decimal(m) + "m "@ + decimal(s) + "s"@
    } else {
        decimal(s) + "s"@
    }
}

/// `start → end`, followed by the elapsed time (a negative span counts as
/// zero) where both ends parse.
pub open spec fn span_text(start: Seq<char>, end: Seq<char>) -> Seq<char> {
    let ends = stamp_or_raw(start) + " → "@ + stamp_or_raw(end);
    match rfc3339_seconds_between(start, end) {
        Some(d) => ends + "  ("@ + duration_text(if d < 0 { 0nat } else { d as nat }) + ")"@,
        None => ends,
    }
}

/// What the elapsed time of a span rests on: there is one exactly where
/// both ends parse as RFC 3339 timestamps, and, where neither end falls in
/// a leap second, it is the whole seconds between the two instants.
pub open spec fn span_seconds_known(start: Seq<char>, end: Seq<char>) -> bool {
    let d = rfc3339_seconds_between(start, end);
    let a = rfc3339_instant(start);
    let b = rfc3339_instant(end);
    &&& d is Some <==> (a is Some && b is Some)
    &&& d is Some && a->Some_0.1 < 1_000_000_000 && b->Some_0.1 < 1_000_000_000 ==> d->Some_0
        == whole_seconds_between(a->Some_0, b->Some_0)
}

/// `word`, with an `s` unless `n` is one.
pub open spec fn plural(n: nat, word: Seq<char>) -> Seq<char> {
    if n == 1 {
        word
    } else {
        word + "s"@
    }
}

/// The printed name of an error category.
pub open spec fn category_text(c: ErrorCategory) -> Seq<char> {
    match c {
        ErrorCategory::UserRejection => "UserRejection"@,
        ErrorCategory::PermissionDenied => "PermissionDenied"@,
        ErrorCategory::HookBlock => "HookBlock"@,
        ErrorCategory::Technical => "Technical"@,
    }
}

/// The header block.
pub open spec fn header_text(r: SessionReport) -> Seq<char> {
    "Session  "@ + r.session_id@ + "\n"@ + "Project  "@ + r.project_cwd@ + "\n"@ + "Span     "@
        + span_text(r.started_at@, r.ended_at@) + "\n"@ + "Records  "@ + decimal(
        r.record_count as nat,
    ) + " lines\n"@ + "\n"@
}

/// One row of the Skills section.
pub open spec fn skill_line(s: SkillInvocationV) -> Seq<char> {
    "  "@ + s.skill_name + "  1 invocation, "@ + decimal(s.inner_errors as nat)
        + " inner errors, window "@ + decimal(s.inner_tool_uses as nat) + " tool uses\n"@
}

/// The rows of the Skills section.
pub open spec fn skill_lines(s: Seq<SkillInvocationV>) -> Seq<char>
    decreases s.len(),
{
    if s.len() == 0 {
        Seq::empty()
    } else {
        skill_lines(s.drop_last()) + skill_line(s.last())
    }
}

/// The Skills section.
pub open spec fn skills_text(s: Seq<SkillInvocationV>) -> Seq<char> {
    "== Skills ("@ + decimal(s.len()) + ") ==\n"@ + skill_lines(s) + "\n"@
}

/// The first line of one subagent; `seconds` is its duration in seconds
/// with one decimal.
pub open spec fn subagent_head(s: SubagentInvocationV, seconds: Seq<char>) -> Seq<char> {
    "  "@ + s.agent_type + "  "@ + s.agent_id + "  status="@ + s.status + "  "@ + seconds + "s  "@
        + decimal(s.total_tokens as nat) + " tok   bash="@ + decimal(
        s.tool_stats.bash_count as nat,
    ) + " read="@ + decimal(s.tool_stats.read_count as nat) + " search="@ + decimal(
        s.tool_stats.search_count as nat,
    ) + " edit="@ + decimal(s.tool_stats.edit_file_count as nat) + "\n"@
}

/// The three lines of one subagent.
pub open spec fn subagent_line(s: SubagentInvocationV, seconds: Seq<char>) -> Seq<char> {
    subagent_head(s, seconds) + "    description: "@ + s.description + "\n"@ + "    log: "@ + s.log_path
        + "\n"@
}

/// The rows of the Subagents section.
pub open spec fn subagent_lines(s: Seq<SubagentInvocationV>, seconds: Seq<Seq<char>>) -> Seq<char>
    decreases s.len(),
{
    if s.len() == 0 {
        Seq::empty()
    } else {
        subagent_lines(s.drop_last(), seconds) + subagent_line(s.last(), seconds[s.len() - 1])
    }
}

/// The Subagents section.
pub open spec fn subagents_text(s: Seq<SubagentInvocationV>, seconds: Seq<Seq<char>>) -> Seq<char> {
    "== Subagents ("@ + decimal(s.len()) + ") ==\n"@ + subagent_lines(s, seconds) + "\n"@
}

/// The cross-reference on the `Skill` and `Task` rows of the Tools section.
pub open spec fn tool_marker(name: Seq<char>) -> Seq<char> {
    if name == "Skill"@ {
        "   [see Skills]"@
    } else if name == "Task"@ {
        "   [see Subagents]"@
    } else {
        Seq::empty()
    }
}

/// One row of the Tools section: the name padded to `name_width`, the
/// invocation count right-aligned to `count_width`.
pub open spec fn tool_line(t: ToolUsageV, name_width: nat, count_width: nat) -> Seq<char> {
    "  "@ + pad_end(t.tool_name, name_width) + "  "@ + pad_start(
        decimal(t.invocation_count as nat),
        count_width,
    ) + " "@ + plural(t.invocation_count as nat, "invocation"@) + ", "@ + decimal(
        t.error_count as nat,
    ) + " "@ + plural(t.error_count as nat, "error"@) + tool_marker(t.tool_name) + "\n"@
}

/// The rows of the Tools section, in the given column widths.
pub open spec fn tool_lines(t: Seq<ToolUsageV>, name_width: nat, count_width: nat) -> Seq<char>
    decreases t.len(),
{
    if t.len() == 0 {
        Seq::empty()
    } else {
        tool_lines(t.drop_last(), name_width, count_width) + tool_line(
            t.last(),
            name_width,
            count_width,
        )
    }
}

/// The names of some rows of the Tools section.
pub open spec fn tool_name_cells(t: Seq<ToolUsageV>) -> Seq<Seq<char>> {
    t.map_values(|u: ToolUsageV| u.tool_name)
}

/// The invocation counts of some rows of the Tools section, in decimal.
pub open spec fn tool_count_cells(t: Seq<ToolUsageV>) -> Seq<Seq<char>> {
    t.map_values(|u: ToolUsageV| decimal(u.invocation_count as nat))
}

/// The first `TOOLS_DISPLAY_LIMIT` rows of a table (all where it is shorter).
pub open spec fn shown_tools(t: Seq<ToolUsageV>) -> Seq<ToolUsageV> {
    if t.len() <= TOOLS_DISPLAY_LIMIT {
        t
    } else {
        t.take(TOOLS_DISPLAY_LIMIT as int)
    }
}

/// The width of the name column of the Tools section: its widest shown name.
pub open spec fn tool_name_width(t: Seq<ToolUsageV>) -> nat {
    widest(tool_name_cells(shown_tools(t)))
}

/// The width of the count column of the Tools section: its widest shown
/// invocation count.
pub open spec fn tool_count_width(t: Seq<ToolUsageV>) -> nat {
    widest(tool_count_cells(shown_tools(t)))
}

/// The Tools section: its header is a label, not a count.
/// Its name and count columns are as wide as their widest shown entry.
pub open spec fn tools_text(t: Seq<ToolUsageV>) -> Seq<char> {
    "== Tools (top 10 by use) ==\n"@ + tool_lines(shown_tools(t), tool_name_width(t), tool_count_width(t))
        + "\n"@
}

/// One row of the Errors section.
pub open spec fn error_line(e: ErrorRecordV) -> Seq<char> {
    "    "@ + e.tool_name + "  "@ + e.tool_use_id + "  \""@ + e.excerpt + "\"\n"@
}

/// The errors of one category, in order.
pub open spec fn errors_in(e: Seq<ErrorRecordV>, c: ErrorCategory) -> Seq<ErrorRecordV>
    decreases e.len(),
{
    if e.len() == 0 {
        Seq::empty()
    } else if e.last().category == c {
        errors_in(e.drop_last(), c).push(e.last())
    } else {
        errors_in(e.drop_last(), c)
    }
}

/// The rows of a list of errors.
pub open spec fn error_lines(e: Seq<ErrorRecordV>) -> Seq<char>
    decreases e.len(),
{
    if e.len() == 0 {
        Seq::empty()
    } else {
        error_lines(e.drop_last()) + error_line(e.last())
    }
}

/// The group of one category: its name and count, then its rows.
pub open spec fn category_group(e: Seq<ErrorRecordV>, c: ErrorCategory) -> Seq<char> {
    "  "@ + category_text(c) + " ("@ + decimal(errors_in(e, c).len()) + "):\n"@ + error_lines(
        errors_in(e, c),
    )
}

/// The Errors section: the four categories, each with its own count.
pub open spec fn errors_text(e: Seq<ErrorRecordV>) -> Seq<char> {
    "== Errors ("@ + decimal(e.len()) + ") ==\n"@ + category_group(e, ErrorCategory::UserRejection)
        + category_group(e, ErrorCategory::PermissionDenied) + category_group(
        e,
        ErrorCategory::HookBlock,
    ) + category_group(e, ErrorCategory::Technical) + "\n"@
}

/// The line(s) of one intervention.
pub open spec fn intervention_line(i: InterventionV) -> Seq<char> {
    match i.kind {
        InterventionKind::Error => "  [error]  "@ + match i.tool_name {
            Some(t) => t,
            None => "<unknown>"@,
        } + "  at "@ + clock_or_raw(i.timestamp) + "\n"@,
        InterventionKind::UserMidStream => "  [user]   mid-stream user message at "@
            + clock_or_raw(i.timestamp) + "\n"@ + "    \""@ + i.excerpt + "\"\n"@,
    }
}

/// The rows of the Interventions section.
pub open spec fn intervention_lines(i: Seq<InterventionV>) -> Seq<char>
    decreases i.len(),
{
    if i.len() == 0 {
        Seq::empty()
    } else {
        intervention_lines(i.drop_last()) + intervention_line(i.last())
    }
}

/// The Interventions section.
pub open spec fn interventions_text(i: Seq<InterventionV>) -> Seq<char> {
    "== Interventions ("@ + decimal(i.len()) + ") ==\n"@ + intervention_lines(i) + "\n"@
}

/// The whole human rendering of a report; `seconds[k]` is the duration of
/// the `k`-th subagent in seconds, with one decimal.
pub open spec fn human_text(r: SessionReport, seconds: Seq<Seq<char>>) -> Seq<char> {
    header_text(r) + skills_text(skills_view(r.skills@)) + subagents_text(
        subagents_view(r.subagents@),
        seconds,
    ) + tools_text(usages_view(r.tools@)) + errors_text(errors_view(r.errors@))
        + interventions_text(interventions_view(r.interventions@))
}


/// The four category groups of the Errors section share out every error:
/// their counts add up to the section's total.
pub proof fn law_category_counts_add_up(e: Seq<ErrorRecordV>)
    ensures
        errors_in(e, ErrorCategory::UserRejection).len() + errors_in(e, ErrorCategory::PermissionDenied).len()
            + errors_in(e, ErrorCategory::HookBlock).len() + errors_in(e, ErrorCategory::Technical).len()
            == e.len(),
    decreases e.len(),
{
    if e.len() > 0 {
        law_category_counts_add_up(e.drop_last());
    }
}

/// Each category group lists exactly the errors of that category.
pub proof fn law_category_group_members(e: Seq<ErrorRecordV>, c: ErrorCategory)
    ensures
        forall|k: int| 0 <= k < errors_in(e, c).len() ==> (#[trigger] errors_in(e, c)[k]).category == c,
        forall|k: int| 0 <= k < e.len() && (#[trigger] e[k]).category == c ==> errors_in(e, c).contains(e[k]),
    decreases e.len(),
{
    if e.len() > 0 {
        law_category_group_members(e.drop_last(), c);
        let rest = errors_in(e.drop_last(), c);
        assert forall|k: int| 0 <= k < e.len() && (#[trigger] e[k]).category == c implies errors_in(e, c).contains(e[k]) by {
            if k < e.len() - 1 {
                assert(e.drop_last()[k] == e[k]);
                let j = choose|j: int| 0 <= j < rest.len() && rest[j] == e[k];
                if e.last().category == c {
                    assert(errors_in(e, c)[j] == e[k]);
                }
            } else {
                assert(errors_in(e, c)[rest.len() as int] == e[k]);
            }
        }
    }
}

/// The layout of a report: the Session, Project, Span and Records lines
/// and a blank line, then the five sections in order (Skills, Subagents,
/// Tools, Errors, Interventions), each opened by its header line, with its
/// count where it has one, even when its list is empty, and closed by a
/// blank line.
pub proof fn law_report_layout(r: SessionReport, seconds: Seq<Seq<char>>)
    ensures
        human_text(r, seconds) == ("Session  "@ + r.session_id@ + "\n"@ + "Project  "@ + r.project_cwd@
            + "\n"@ + "Span     "@ + span_text(r.started_at@, r.ended_at@) + "\n"@ + "Records  "@
            + decimal(r.record_count as nat) + " lines\n"@ + "\n"@) + ("== Skills ("@ + decimal(
            r.skills@.len(),
        ) + ") ==\n"@ + skill_lines(skills_view(r.skills@)) + "\n"@) + ("== Subagents ("@ + decimal(
            r.subagents@.len(),
        ) + ") ==\n"@ + subagent_lines(subagents_view(r.subagents@), seconds) + "\n"@) + (
        "== Tools (top 10 by use) ==\n"@ + tool_lines(
            shown_tools(usages_view(r.tools@)),
            tool_name_width(usages_view(r.tools@)),
            tool_count_width(usages_view(r.tools@)),
        ) + "\n"@) + ("== Errors ("@ + decimal(r.errors@.len()) + ") ==\n"@ + category_group(
            errors_view(r.errors@),
            ErrorCategory::UserRejection,
        ) + category_group(errors_view(r.errors@), ErrorCategory::PermissionDenied)
            + category_group(errors_view(r.errors@), ErrorCategory::HookBlock) + category_group(
            errors_view(r.errors@),
            ErrorCategory::Technical,
        ) + "\n"@) + ("== Interventions ("@ + decimal(r.interventions@.len()) + ") ==\n"@
            + intervention_lines(interventions_view(r.interventions@)) + "\n"@),
{
    assert(skills_view(r.skills@).len() == r.skills@.len());
    assert(subagents_view(r.subagents@).len() == r.subagents@.len());
    assert(errors_view(r.errors@).len() == r.errors@.len());
    assert(interventions_view(r.interventions@).len() == r.interventions@.len());
}

/// A report whose five lists are empty still prints every section header,
/// each with a zero count, and the four error categories with zero counts.
pub proof fn law_empty_report_sections(r: SessionReport, seconds: Seq<Seq<char>>)
    requires
        r.skills@.len() == 0,
        r.subagents@.len() == 0,
        r.tools@.len() == 0,
        r.errors@.len() == 0,
        r.interventions@.len() == 0,
    ensures
        human_text(r, seconds) == header_text(r) + "== Skills (0) ==\n\n== Subagents (0) ==\n\n== Tools (top 10 by use) ==\n\n== Errors (0) ==\n  UserRejection (0):\n  PermissionDenied (0):\n  HookBlock (0):\n  Technical (0):\n\n== Interventions (0) ==\n\n"@,
{
    let ev = errors_view(r.errors@);
    assert(errors_in(ev, ErrorCategory::UserRejection).len() == 0);
    assert(errors_in(ev, ErrorCategory::PermissionDenied).len() == 0);
    assert(errors_in(ev, ErrorCategory::HookBlock).len() == 0);
    assert(errors_in(ev, ErrorCategory::Technical).len() == 0);
    assert(decimal(0) =~= "0"@) by {
        reveal_strlit("0");
    }
    assert(shown_tools(usages_view(r.tools@)).len() == 0);
    reveal_strlit("== Skills (");
    reveal_strlit(") ==\n");
    reveal_strlit("\n");
    reveal_strlit("== Subagents (");
    reveal_strlit("== Tools (top 10 by use) ==\n");
    reveal_strlit("== Errors (");
    reveal_strlit("  ");
    reveal_strlit(" (");
    reveal_strlit("):\n");
    reveal_strlit("UserRejection");
    reveal_strlit("PermissionDenied");
    reveal_strlit("HookBlock");
    reveal_strlit("Technical");
    reveal_strlit("== Interventions (");
    reveal_strlit("== Skills (0) ==\n\n== Subagents (0) ==\n\n== Tools (top 10 by use) ==\n\n== Errors (0) ==\n  UserRejection (0):\n  PermissionDenied (0):\n  HookBlock (0):\n  Technical (0):\n\n== Interventions (0) ==\n\n");
    assert(human_text(r, seconds) =~= header_text(r) + "== Skills (0) ==\n\n== Subagents (0) ==\n\n== Tools (top 10 by use) ==\n\n== Errors (0) ==\n  UserRejection (0):\n  PermissionDenied (0):\n  HookBlock (0):\n  Technical (0):\n\n== Interventions (0) ==\n\n"@);
}

/// The Tools section shows the first ten rows of the table (all where it
/// has fewer), in order, and lines up its columns: every name is padded to
/// the widest shown name, and every invocation count right-aligned to the
/// widest shown count, so each count ends in the same column.
pub proof fn law_tools_first_ten_aligned(t: Seq<ToolUsageV>)
    ensures
        shown_tools(t).len() == if t.len() <= 10 {
            t.len()
        } else {
            10
        },
        forall|k: int| 0 <= k < shown_tools(t).len() ==> #[trigger] shown_tools(t)[k] == t[k],
        forall|k: int|
            #![trigger shown_tools(t)[k]]
            0 <= k < shown_tools(t).len() ==> {
                &&& pad_end(shown_tools(t)[k].tool_name, tool_name_width(t)).len() == tool_name_width(t)
                &&& pad_end(shown_tools(t)[k].tool_name, tool_name_width(t)).take(
                    shown_tools(t)[k].tool_name.len() as int,
                ) == shown_tools(t)[k].tool_name
                &&& pad_start(decimal(shown_tools(t)[k].invocation_count as nat), tool_count_width(t)).len()
                    == tool_count_width(t)
                &&& pad_start(decimal(shown_tools(t)[k].invocation_count as nat), tool_count_width(t)).skip(
                    tool_count_width(t) - decimal(shown_tools(t)[k].invocation_count as nat).len(),
                ) == decimal(shown_tools(t)[k].invocation_count as nat)
            },
{
    let s = shown_tools(t);
    lemma_widest_pads(tool_name_cells(s));
    lemma_widest_pads(tool_count_cells(s));
    assert forall|k: int| #![trigger shown_tools(t)[k]] 0 <= k < s.len() implies {
        &&& pad_end(s[k].tool_name, tool_name_width(t)).len() == tool_name_width(t)
        &&& pad_end(s[k].tool_name, tool_name_width(t)).take(s[k].tool_name.len() as int)
            == s[k].tool_name
        &&& pad_start(decimal(s[k].invocation_count as nat), tool_count_width(t)).len()
            == tool_count_width(t)
        &&& pad_start(decimal(s[k].invocation_count as nat), tool_count_width(t)).skip(
            tool_count_width(t) - decimal(s[k].invocation_count as nat).len(),
        ) == decimal(s[k].invocation_count as nat)
    } by {
        assert(tool_name_cells(s)[k] == s[k].tool_name);
        assert(tool_count_cells(s)[k] == decimal(s[k].invocation_count as nat));
    }
}

/// Reformats a timestamp to second precision with a `Z` suffix; a text that
/// does not parse comes back as it is.
pub fn fmt_timestamp(raw: &str) -> (r: String)
    ensures
        r@ == stamp_or_raw(raw@),
        one_line(raw@) ==> one_line(r@),
{
    match stamp_text(raw) {
        Some(t) => t,
        None => raw.to_owned(),
    }
}

/// A timestamp's time of day with a `Z` suffix; a text that does not parse
/// comes back as it is.
pub fn fmt_time(raw: &str) -> (r: String)
    ensures
        r@ == clock_or_raw(raw@),
        one_line(raw@) ==> one_line(r@),
{
    match clock_text(raw) {
        Some(t) => t,
        None => raw.to_owned(),
    }
}

/// A number of seconds as `Nh Mm`, `Mm Ss` or `Ss`.
pub fn fmt_duration(total_secs: u64) -> (r: String)
    ensures
        r@ == duration_text(total_secs as nat),
        one_line(r@),
{
    proof {
        lemma_duration_one_line(total_secs as nat);
    }
    let h = total_secs / 3600;
    let m = (total_secs % 3600) / 60;
    let s = total_secs % 60;
    let mut out = String::new();
    if h > 0 {
        push_u64(&mut out, h);
        out.append("h ");
        push_u64(&mut out, m);
        out.append("m");
    } else if m > 0 {
        push_u64(&mut out, m);
        out.append("m ");
        push_u64(&mut out, s);
        out.append("s");
    } else {
        push_u64(&mut out, s);
        out.append("s");
    }
    out
}

/// `start → end  (elapsed)`, the elapsed part only where both ends parse.
pub fn fmt_span(started: &str, ended: &str) -> (r: String)
    ensures
        r@ == span_text(started@, ended@),
        span_seconds_known(started@, ended@),
        one_line(started@) && one_line(ended@) ==> one_line(r@),
{
    let mut out = fmt_timestamp(started);
    proof {
        reveal_strlit(" → ");
        reveal_strlit("  (");
        reveal_strlit(")");
    }
    let ghost s0 = out@;
    out.append(" → ");
    let e = fmt_timestamp(ended);
    out.append(e.as_str());
    proof {
        if one_line(started@) && one_line(ended@) {
            lemma_one_line_concat(s0, " → "@);
            lemma_one_line_concat(s0 + " → "@, e@);
        }
    }
    match seconds_between(started, ended) {
        Some(d) => {
            let total: u64 = if d < 0 { 0 } else { d as u64 };
            let ghost s1 = out@;
            out.append("  (");
            let dur = fmt_duration(total);
            out.append(dur.as_str());
            out.append(")");
            proof {
                if one_line(s1) {
                    lemma_one_line_concat(s1, "  ("@);
                    lemma_one_line_concat(s1 + "  ("@, dur@);
                    lemma_one_line_concat(s1 + "  ("@ + dur@, ")"@);
                }
            }
        },
        None => {},
    }
    out
}

/// An elapsed time is printed on one line.
proof fn lemma_duration_one_line(total: nat)
    ensures
        one_line(duration_text(total)),
{
    let h = total / 3600;
    let m = (total % 3600) / 60;
    let s = total % 60;
    lemma_decimal_digits(h);
    lemma_decimal_digits(m);
    lemma_decimal_digits(s);
    reveal_strlit("h ");
    reveal_strlit("m");
    reveal_strlit("m ");
    reveal_strlit("s");
    if h > 0 {
        lemma_one_line_concat(decimal(h), "h "@);
        lemma_one_line_concat(decimal(h) + "h "@, decimal(m));
        lemma_one_line_concat(decimal(h) + "h "@ + decimal(m), "m"@);
    } else if m > 0 {
        lemma_one_line_concat(decimal(m), "m "@);
        lemma_one_line_concat(decimal(m) + "m "@, decimal(s));
        lemma_one_line_concat(decimal(m) + "m "@ + decimal(s), "s"@);
    } else {
        lemma_one_line_concat(decimal(s), "s"@);
    }
}

/// `word`, with an `s` unless `n` is one.
pub fn pluralize(n: usize, word: &str) -> (r: String)
    ensures
        r@ == plural(n as nat, word@),
{
    let mut out = word.to_owned();
    if n != 1 {
        out.append("s");
    }
    out
}

/// The printed name of an error category.
pub fn category_name(category: ErrorCategory) -> (r: &'static str)
    ensures
        r@ == category_text(category),
{
    match category {
        ErrorCategory::UserRejection => "UserRejection",
        ErrorCategory::PermissionDenied => "PermissionDenied",
        ErrorCategory::HookBlock => "HookBlock",
        ErrorCategory::Technical => "Technical",
    }
}

fn push_header(out: &mut String, r: &SessionReport)
    ensures
        final(out)@ == old(out)@ + header_text(*r),
        span_seconds_known(r.started_at@, r.ended_at@),
        one_line(r.started_at@) && one_line(r.ended_at@) ==> one_line(
            span_text(r.started_at@, r.ended_at@),
        ),
{
    out.append("Session  ");
    out.append(r.session_id.as_str());
    out.append("\n");
    out.append("Project  ");
    out.append(r.project_cwd.as_str());
    out.append("\n");
    out.append("Span     ");
    let span = fmt_span(r.started_at.as_str(), r.ended_at.as_str());
    out.append(span.as_str());
    out.append("\n");
    out.append("Records  ");
    push_usize(out, r.record_count);
    out.append(" lines\n");
    out.append("\n");
}

fn push_skills(out: &mut String, skills: &Vec<SkillInvocation>)
    ensures
        final(out)@ == old(out)@ + skills_text(skills_view(skills@)),
{
    let ghost sv = skills_view(skills@);
    out.append("== Skills (");
    push_usize(out, skills.len());
    out.append(") ==\n");
    let ghost head = out@;
    let mut i: usize = 0;
    while i < skills.len()
        invariant
            0 <= i <= skills@.len(),
            sv == skills_view(skills@),
            out@ == head + skill_lines(sv.take(i as int)),
        decreases skills.len() - i,
    {
        let s = &skills[i];
        out.append("  ");
        out.append(s.skill_name.as_str());
        out.append("  1 invocation, ");
        push_usize(out, s.inner_errors);
        out.append(" inner errors, window ");
        push_usize(out, s.inner_tool_uses);
        out.append(" tool uses\n");
        assert(sv.take(i + 1).drop_last() =~= sv.take(i as int));
        assert(sv[i as int] == s@);
        i = i + 1;
    }
    assert(sv.take(sv.len() as int) =~= sv);
    out.append("\n");
}

fn push_subagent_head(out: &mut String, s: &SubagentInvocation, seconds: &String)
    ensures
        final(out)@ == old(out)@ + subagent_head(s@, seconds@),
{
    out.append("  ");
    out.append(s.agent_type.as_str());
    out.append("  ");
    out.append(s.agent_id.as_str());
    out.append("  status=");
    out.append(s.status.as_str());
    out.append("  ");
    out.append(seconds.as_str());
    out.append("s  ");
    push_u64(out, s.total_tokens);
    out.append(" tok   bash=");
    push_u64(out, s.tool_stats.bash_count);
    out.append(" read=");
    push_u64(out, s.tool_stats.read_count);
    out.append(" search=");
    push_u64(out, s.tool_stats.search_count);
    out.append(" edit=");
    push_u64(out, s.tool_stats.edit_file_count);
    out.append("\n");
}

fn push_subagent_line(out: &mut String, s: &SubagentInvocation, seconds: &String)
    ensures
        final(out)@ == old(out)@ + subagent_line(s@, seconds@),
{
    push_subagent_head(out, s, seconds);
    out.append("    description: ");
    out.append(s.description.as_str());
    out.append("\n");
    out.append("    log: ");
    out.append(s.log_path.as_str());
    out.append("\n");
}

#[verifier::rlimit(40)]
#[verifier::spinoff_prover]
fn push_tool_line(out: &mut String, t: &ToolUsage, name_width: usize, count_width: usize)
    ensures
        final(out)@ == old(out)@ + tool_line(t@, name_width as nat, count_width as nat),
{
    out.append("  ");
    push_pad_end(out, t.tool_name.as_str(), name_width);
    out.append("  ");
    let mut count = String::new();
    push_usize(&mut count, t.invocation_count);
    push_pad_start(out, count.as_str(), count_width);
    out.append(" ");
    let w = pluralize(t.invocation_count, "invocation");
    out.append(w.as_str());
    out.append(", ");
    push_usize(out, t.error_count);
    out.append(" ");
    let w2 = pluralize(t.error_count, "error");
    out.append(w2.as_str());
    if eq_str(&t.tool_name, "Skill") {
        out.append("   [see Skills]");
    } else if eq_str(&t.tool_name, "Task") {
        out.append("   [see Subagents]");
    }
    out.append("\n");
}

fn push_subagents(out: &mut String, subs: &Vec<SubagentInvocation>, seconds: &Vec<String>)
    requires
        seconds@.len() == subs@.len(),
    ensures
        final(out)@ == old(out)@ + subagents_text(
            subagents_view(subs@),
            seconds@.map_values(|t: String| t@),
        ),
{
    let ghost sv = subagents_view(subs@);
    let ghost secs = seconds@.map_values(|t: String| t@);
    out.append("== Subagents (");
    push_usize(out, subs.len());
    out.append(") ==\n");
    let ghost head = out@;
    let mut i: usize = 0;
    while i < subs.len()
        invariant
            0 <= i <= subs@.len(),
            seconds@.len() == subs@.len(),
            sv == subagents_view(subs@),
            secs == seconds@.map_values(|t: String| t@),
            out@ == head + subagent_lines(sv.take(i as int), secs),
        decreases subs.len() - i,
    {
        let s = &subs[i];
        push_subagent_line(out, s, &seconds[i]);
        assert(sv.take(i + 1).drop_last() =~= sv.take(i as int));
        assert(sv[i as int] == s@);
        assert(secs[i as int] == seconds@[i as int]@);
        i = i + 1;
    }
    assert(sv.take(sv.len() as int) =~= sv);
    out.append("\n");
}

fn push_tools(out: &mut String, tools: &Vec<ToolUsage>)
    ensures
        final(out)@ == old(out)@ + tools_text(usages_view(tools@)),
{
    let ghost tv = usages_view(tools@);
    let ghost shown = shown_tools(tv);
    out.append("== Tools (top 10 by use) ==\n");
    let ghost head = out@;
    let n: usize = if tools.len() <= TOOLS_DISPLAY_LIMIT {
        tools.len()
    } else {
        TOOLS_DISPLAY_LIMIT
    };
    assert(shown.len() == n);
    let mut names: Vec<String> = Vec::new();
    let mut counts: Vec<String> = Vec::new();
    let mut j: usize = 0;
    while j < n
        invariant
            0 <= j <= n,
            n == shown.len(),
            n <= tools@.len(),
            tv == usages_view(tools@),
            shown == shown_tools(tv),
            names@.len() == j,
            counts@.len() == j,
            texts_view(names@) == tool_name_cells(shown.take(j as int)),
            texts_view(counts@) == tool_count_cells(shown.take(j as int)),
        decreases n - j,
    {
        assert(shown[j as int] == tools@[j as int]@);
        let ghost names_before = names@;
        let ghost counts_before = counts@;
        names.push(tools[j].tool_name.clone());
        let mut c = String::new();
        push_usize(&mut c, tools[j].invocation_count);
        counts.push(c);
        proof {
            assert forall|k: int| 0 <= k < j + 1 implies texts_view(names@)[k] == tool_name_cells(
                shown.take(j + 1),
            )[k] && texts_view(counts@)[k] == tool_count_cells(shown.take(j + 1))[k] by {
                if k < j {
                    assert(names@[k] == names_before[k]);
                    assert(counts@[k] == counts_before[k]);
                    assert(texts_view(names_before)[k] == tool_name_cells(shown.take(j as int))[k]);
                    assert(texts_view(counts_before)[k] == tool_count_cells(shown.take(j as int))[k]);
                }
            }
            assert(texts_view(names@) =~= tool_name_cells(shown.take(j + 1)));
            assert(texts_view(counts@) =~= tool_count_cells(shown.take(j + 1)));
        }
        j = j + 1;
    }
    assert(shown.take(n as int) =~= shown);
    let name_width = widest_of(&names);
    let count_width = widest_of(&counts);
    let mut i: usize = 0;
    while i < n
        invariant
            0 <= i <= n,
            n == shown.len(),
            n <= tools@.len(),
            tv == usages_view(tools@),
            shown == shown_tools(tv),
            name_width == widest(tool_name_cells(shown)),
            count_width == widest(tool_count_cells(shown)),
            out@ == head + tool_lines(shown.take(i as int), name_width as nat, count_width as nat),
        decreases n - i,
    {
        let t = &tools[i];
        push_tool_line(out, t, name_width, count_width);
        assert(shown.take(i + 1).drop_last() =~= shown.take(i as int));
        assert(shown[i as int] == t@);
        i = i + 1;
    }
    out.append("\n");
}

fn push_category(out: &mut String, errors: &Vec<ErrorRecord>, c: ErrorCategory)
    ensures
        final(out)@ == old(out)@ + category_group(errors_view(errors@), c),
{
    let ghost ev = errors_view(errors@);
    let mut lines = String::new();
    let mut count: usize = 0;
    let mut i: usize = 0;
    while i < errors.len()
        invariant
            0 <= i <= errors@.len(),
            ev == errors_view(errors@),
            count == errors_in(ev.take(i as int), c).len(),
            count <= i,
            lines@ == error_lines(errors_in(ev.take(i as int), c)),
        decreases errors.len() - i,
    {
        let e = &errors[i];
        assert(ev.take(i + 1).drop_last() =~= ev.take(i as int));
        assert(ev[i as int] == e@);
        if e.category == c {
            lines.append("    ");
            lines.append(e.tool_name.as_str());
            lines.append("  ");
            lines.append(e.tool_use_id.as_str());
            lines.append("  \"");
            lines.append(e.excerpt.as_str());
            lines.append("\"\n");
            count = count + 1;
            assert(errors_in(ev.take(i + 1), c).drop_last() == errors_in(ev.take(i as int), c));
        }
        i = i + 1;
    }
    assert(ev.take(ev.len() as int) =~= ev);
    out.append("  ");
    out.append(category_name(c));
    out.append(" (");
    push_usize(out, count);
    out.append("):\n");
    out.append(lines.as_str());
}

fn push_errors(out: &mut String, errors: &Vec<ErrorRecord>)
    ensures
        final(out)@ == old(out)@ + errors_text(errors_view(errors@)),
{
    out.append("== Errors (");
    push_usize(out, errors.len());
    out.append(") ==\n");
    push_category(out, errors, ErrorCategory::UserRejection);
    push_category(out, errors, ErrorCategory::PermissionDenied);
    push_category(out, errors, ErrorCategory::HookBlock);
    push_category(out, errors, ErrorCategory::Technical);
    out.append("\n");
}

#[verifier::rlimit(40)]
#[verifier::spinoff_prover]
fn push_interventions(out: &mut String, ivs: &Vec<Intervention>)
    ensures
        final(out)@ == old(out)@ + interventions_text(interventions_view(ivs@)),
{
    let ghost iv = interventions_view(ivs@);
    out.append("== Interventions (");
    push_usize(out, ivs.len());
    out.append(") ==\n");
    let ghost head = out@;
    let mut i: usize = 0;
    while i < ivs.len()
        invariant
            0 <= i <= ivs@.len(),
            iv == interventions_view(ivs@),
            out@ == head + intervention_lines(iv.take(i as int)),
        decreases ivs.len() - i,
    {
        let x = &ivs[i];
        match x.kind {
            InterventionKind::Error => {
                out.append("  [error]  ");
                match &x.tool_name {
                    Some(t) => out.append(t.as_str()),
                    None => out.append("<unknown>"),
                }
                out.append("  at ");
                let t = fmt_time(x.timestamp.as_str());
                out.append(t.as_str());
                out.append("\n");
            },
            InterventionKind::UserMidStream => {
                out.append("  [user]   mid-stream user message at ");
                let t = fmt_time(x.timestamp.as_str());
                out.append(t.as_str());
                out.append("\n");
                out.append("    \"");
                out.append(x.excerpt.as_str());
                out.append("\"\n");
            },
        }
        assert(iv.take(i + 1).drop_last() =~= iv.take(i as int));
        assert(iv[i as int] == x@);
        i = i + 1;
    }
    assert(iv.take(iv.len() as int) =~= iv);
    out.append("\n");
}

/// Renders a report for a reader; `seconds[k]` is the duration of the
/// `k`-th subagent in seconds with one decimal (`{:.1}` of its milliseconds
/// over 1000).
pub fn format_human(report: &SessionReport, seconds: &Vec<String>) -> (r: String)
    requires
        seconds@.len() == report.subagents@.len(),
    ensures
        r@ == human_text(*report, seconds@.map_values(|t: String| t@)),
        span_seconds_known(report.started_at@, report.ended_at@),
        one_line(report.started_at@) && one_line(report.ended_at@) ==> one_line(
            span_text(report.started_at@, report.ended_at@),
        ),
{
    let mut out = String::new();
    push_header(&mut out, report);
    push_skills(&mut out, &report.skills);
    push_subagents(&mut out, &report.subagents, seconds);
    push_tools(&mut out, &report.tools);
    push_errors(&mut out, &report.errors);
    push_interventions(&mut out, &report.interventions);
    out
}

} // verus!
