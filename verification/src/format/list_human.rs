//! The human renderings of the listings: the projects under a log root, and
//! the sessions of one project in a git-log-like default form (a block per
//! session, with a tree of its subagents) or one line per session.

use vstd::prelude::*;

use crate::json::{str_member, str_member_of, JsonValue};
use crate::list::projects::{project_rows_view, ProjectListing, ProjectRow, ProjectRowV};
use crate::list::sessions::{
    limited, opt_view, rows_view, summaries_view, SessionListing, SessionRow, SessionRowV, SessionStatus,
    SubagentSummary, SubagentSummaryV, ToolStats,
};
use crate::text::{
    decimal, pad_end, pad_start, push_char, push_pad_end, push_pad_start, push_u64, push_usize,
    lemma_widest_pads, take_chars, texts_view, truncate_chars, widest, widest_of,
};
use crate::timestamps::{
    is_utc_representable, rfc3339_stamp_text, stamp_chars, stamp_text, utc_representable, utc_stamp, utc_stamp_text,
};

verus! {

/// What a subagent row needs from outside the session log: the parsed
/// `agent-<id>.meta.json` sidecar (`None` where it is missing or not JSON),
/// and the run's duration in seconds with one decimal (`{:.1}` of its
/// milliseconds over 1000; read only where the duration is known).
pub struct SubagentSidecar {
    pub meta: Option<JsonValue>,
    pub seconds: String,
}

/// The model of a sidecar.
pub struct SubagentSidecarV {
    pub meta: Option<crate::json::JsonV>,
    pub seconds: Seq<char>,
}

impl View for SubagentSidecar {
    type V = SubagentSidecarV;

    open spec fn view(&self) -> SubagentSidecarV {
        SubagentSidecarV {
            meta: match self.meta {
                Some(m) => Some(m@),
                None => None,
            },
            seconds: self.seconds@,
        }
    }
}

/// The model of the sidecars of one session's subagents.
pub open spec fn sidecars_view(v: Seq<SubagentSidecar>) -> Seq<SubagentSidecarV> {
    v.map_values(|s: SubagentSidecar| s@)
}

/// The model of the sidecars of every session.
pub open spec fn all_sidecars_view(v: Seq<Vec<SubagentSidecar>>) -> Seq<Seq<SubagentSidecarV>> {
    v.map_values(|s: Vec<SubagentSidecar>| sidecars_view(s@))
}

/// A text cut to `max` characters, the last of them an ellipsis, where it
/// is longer.
pub open spec fn truncated(s: Seq<char>, max: nat) -> Seq<char> {
    if s.len() <= max {
        s
    } else {
        s.take(max - 1).push('…')
    }
}

/// The printed word of a status.
pub open spec fn status_text(s: SessionStatus) -> Seq<char> {
    match s {
        SessionStatus::Success => "success"@,
        SessionStatus::Error => "error"@,
        SessionStatus::Aborted => "aborted"@,
        SessionStatus::Unknown => "unknown"@,
    }
}

/// The line a session is summed up by: its `ai-title`, else its first user
/// message, else why there is nothing to show.
pub open spec fn title_text(r: SessionRowV) -> Seq<char> {
    if r.ai_title is Some && r.ai_title->Some_0.len() > 0 {
        r.ai_title->Some_0
    } else if r.first_user_message_excerpt is Some && r.first_user_message_excerpt->Some_0.len() > 0 {
        "(untitled) \""@ + r.first_user_message_excerpt->Some_0 + "\""@
    } else if r.status == SessionStatus::Unknown {
        "(could not read session)"@
    } else {
        "(no content)"@
    }
}

/// A session's start at second precision with a `Z` suffix; empty where it
/// is missing or does not parse.
pub open spec fn date_text(r: SessionRowV) -> Seq<char> {
    match r.started_at {
        Some(t) => match rfc3339_stamp_text(t) {
            Some(z) => z,
            None => Seq::empty(),
        },
        None => Seq::empty(),
    }
}

/// The largest of the bash, read, search and edit counts.
pub open spec fn max_count(s: ToolStats) -> u64 {
    let a = if s.bash_count >= s.read_count { s.bash_count } else { s.read_count };
    let b = if s.search_count >= s.edit_file_count { s.search_count } else { s.edit_file_count };
    if a >= b { a } else { b }
}

/// The dominant tool of a run, `name=count`: the first of bash, read,
/// search, edit with the largest count, where that count is not zero.
pub open spec fn dominant_text(s: ToolStats) -> Option<Seq<char>> {
    let m = max_count(s);
    if m == 0 {
        None
    } else if s.bash_count == m {
        Some("bash="@ + decimal(m as nat))
    } else if s.read_count == m {
        Some("read="@ + decimal(m as nat))
    } else if s.search_count == m {
        Some("search="@ + decimal(m as nat))
    } else {
        Some("edit="@ + decimal(m as nat))
    }
}

/// The dominant tool of a run is the tool with the largest of the bash,
/// read, search and edit counts, labelled with its name and that count;
/// among equal largest counts the first of bash, read, search, edit wins;
/// and a run that used none of the four has none.
pub proof fn law_dominant_tool(s: ToolStats)
    ensures
        dominant_text(s) is None <==> (s.bash_count == 0 && s.read_count == 0 && s.search_count == 0
            && s.edit_file_count == 0),
        s.bash_count > 0 && s.bash_count >= s.read_count && s.bash_count >= s.search_count
            && s.bash_count >= s.edit_file_count ==> dominant_text(s) == Some(
            "bash="@ + decimal(s.bash_count as nat),
        ),
        s.read_count > 0 && s.read_count > s.bash_count && s.read_count >= s.search_count
            && s.read_count >= s.edit_file_count ==> dominant_text(s) == Some(
            "read="@ + decimal(s.read_count as nat),
        ),
        s.search_count > 0 && s.search_count > s.bash_count && s.search_count > s.read_count
            && s.search_count >= s.edit_file_count ==> dominant_text(s) == Some(
            "search="@ + decimal(s.search_count as nat),
        ),
        s.edit_file_count > 0 && s.edit_file_count > s.bash_count && s.edit_file_count > s.read_count
            && s.edit_file_count > s.search_count ==> dominant_text(s) == Some(
            "edit="@ + decimal(s.edit_file_count as nat),
        ),
{
}

/// The description a meta sidecar gives, cut to 80 characters.
pub open spec fn description_text(meta: Option<crate::json::JsonV>) -> Seq<char> {
    match meta {
        Some(m) => match str_member(m, "description"@) {
            Some(d) => truncated(d, 80),
            None => "(no description)"@,
        },
        None => "(no description)"@,
    }
}

/// The duration column of a subagent line.
pub open spec fn duration_col(s: SubagentSummaryV, c: SubagentSidecarV) -> Seq<char> {
    match s.total_duration_ms {
        Some(_) => c.seconds + "s"@,
        None => "-"@,
    }
}

/// The name column of a subagent line: its type and its id.
pub open spec fn subagent_name_cell(s: SubagentSummaryV) -> Seq<char> {
    s.agent_type + " "@ + s.agent_id
}

/// The tokens column of a subagent line.
pub open spec fn token_cell(s: SubagentSummaryV) -> Seq<char> {
    match s.total_tokens {
        Some(t) => decimal(t as nat) + " tok"@,
        None => "- tok"@,
    }
}

/// The dominant tool at the end of a subagent line, after a gap, where the
/// run used one.
pub open spec fn dominant_suffix(s: SubagentSummaryV) -> Seq<char> {
    match s.tool_stats {
        Some(st) => match dominant_text(st) {
            Some(d) => "   "@ + d,
            None => Seq::empty(),
        },
        None => Seq::empty(),
    }
}

/// The widths of the columns of a session's subagent tree: the widest name,
/// status, duration and token count among its subagents.
pub open spec fn tree_widths(s: Seq<SubagentSummaryV>, c: Seq<SubagentSidecarV>) -> (nat, nat, nat, nat) {
    (
        widest(s.map_values(|x: SubagentSummaryV| subagent_name_cell(x))),
        widest(s.map_values(|x: SubagentSummaryV| x.status)),
        widest(Seq::new(s.len(), |i: int| duration_col(s[i], c[i]))),
        widest(s.map_values(|x: SubagentSummaryV| token_cell(x))),
    )
}

/// The first line of a subagent in a session's tree: the name and status
/// padded to their columns' widths, the duration and tokens right-aligned
/// to theirs, then the dominant tool.
pub open spec fn subagent_head_line(
    s: SubagentSummaryV,
    c: SubagentSidecarV,
    last: bool,
    w: (nat, nat, nat, nat),
) -> Seq<char> {
    "      "@ + (if last { "└─"@ } else { "├─"@ }) + " "@ + pad_end(subagent_name_cell(s), w.0) + "   "@
        + pad_end(s.status, w.1) + "   "@ + pad_start(duration_col(s, c), w.2) + "   "@ + pad_start(
        token_cell(s),
        w.3,
    ) + dominant_suffix(s) + "\n"@
}

/// The second line of a subagent in a session's tree: its description,
/// under the tree's bar where more subagents follow.
pub open spec fn subagent_desc_line(c: SubagentSidecarV, last: bool) -> Seq<char> {
    "      "@ + (if last { " "@ } else { "│"@ }) + "     "@ + description_text(c.meta) + "\n"@
}

/// The two lines of a subagent in a session's tree.
pub open spec fn subagent_tree_lines(
    s: SubagentSummaryV,
    c: SubagentSidecarV,
    last: bool,
    w: (nat, nat, nat, nat),
) -> Seq<char> {
    subagent_head_line(s, c, last, w) + subagent_desc_line(c, last)
}

/// The tree of the first `n` of `total` subagents.
pub open spec fn subagent_tree(s: Seq<SubagentSummaryV>, c: Seq<SubagentSidecarV>, n: int) -> Seq<char>
    decreases n,
{
    if n <= 0 {
        Seq::empty()
    } else {
        subagent_tree(s, c, n - 1) + subagent_tree_lines(
            s[n - 1],
            c[n - 1],
            n - 1 == s.len() - 1,
            tree_widths(s, c),
        )
    }
}

/// The working directory of a listing, empty where it has none.
pub open spec fn cwd_text(c: Option<Seq<char>>) -> Seq<char> {
    match c {
        Some(p) => p,
        None => Seq::empty(),
    }
}

/// The header of a session listing.
pub open spec fn sessions_header_text(cwd: Option<Seq<char>>, encoded: Seq<char>, count: nat, shown: nat) -> Seq<char> {
    "Project   "@ + cwd_text(cwd) + "\n"@ + "Encoded   "@ + encoded + "\n"@ + sessions_count_line(
        count,
        shown,
    ) + "\n"@
}

/// The count line of a session listing; it says how many are shown where
/// the limit cut some.
pub open spec fn sessions_count_line(count: nat, shown: nat) -> Seq<char> {
    if count > shown {
        "Sessions  "@ + decimal(count) + " total   (showing "@ + decimal(shown) + ")\n"@
    } else {
        "Sessions  "@ + decimal(count) + " total\n"@
    }
}

/// The block of one session in the default form.
pub open spec fn session_block_text(r: SessionRowV, c: Seq<SubagentSidecarV>) -> Seq<char> {
    "session "@ + r.session_id + "\n"@ + "Status: "@ + status_text(r.status) + "\n"@ + "Date:   "@
        + date_text(r) + "\n"@ + "\n"@ + "    "@ + title_text(r) + "\n"@ + if r.subagents.len() > 0 {
        "\n"@ + "    Subagents ("@ + decimal(r.subagents.len()) + "):\n"@ + subagent_tree(
            r.subagents,
            c,
            r.subagents.len() as int,
        )
    } else {
        Seq::empty()
    }
}

/// The blocks of the first `n` sessions, a blank line between two.
pub open spec fn session_blocks(r: Seq<SessionRowV>, c: Seq<Seq<SubagentSidecarV>>, n: int) -> Seq<char>
    decreases n,
{
    if n <= 0 {
        Seq::empty()
    } else {
        session_blocks(r, c, n - 1) + (if n - 1 > 0 {
            "\n"@
        } else {
            Seq::empty()
        }) + session_block_text(r[n - 1], c[n - 1])
    }
}

/// The default rendering of a session listing.
pub open spec fn sessions_default_text(l: SessionListing, c: Seq<Seq<SubagentSidecarV>>) -> Seq<char> {
    let rows = rows_view(l.sessions@);
    sessions_header_text(opt_view(l.project_cwd), l.encoded_cwd@, l.session_count as nat, rows.len())
        + session_blocks(rows, c, rows.len() as int)
}

/// The tag of a one-line row: the number of subagents, where there are any.
pub open spec fn subagent_tag(n: nat) -> Seq<char> {
    if n == 0 {
        Seq::empty()
    } else if n == 1 {
        "   [1 subagent]"@
    } else {
        "   ["@ + decimal(n) + " subagents]"@
    }
}

/// One session on one line: the first 8 characters of its id, its status
/// padded to 8, its start, its title and its subagent tag.
pub open spec fn oneline_text(r: SessionRowV) -> Seq<char> {
    take_chars(r.session_id, 8) + "  "@ + pad_end(status_text(r.status), 8) + "  "@ + date_text(r)
        + "   "@ + title_text(r) + subagent_tag(r.subagents.len()) + "\n"@
}

/// The rows of the first `n` sessions, one line each.
pub open spec fn oneline_rows(r: Seq<SessionRowV>, n: int) -> Seq<char>
    decreases n,
{
    if n <= 0 {
        Seq::empty()
    } else {
        oneline_rows(r, n - 1) + oneline_text(r[n - 1])
    }
}

/// The one-line rendering of a session listing.
pub open spec fn sessions_oneline_text(l: SessionListing) -> Seq<char> {
    let rows = rows_view(l.sessions@);
    sessions_header_text(opt_view(l.project_cwd), l.encoded_cwd@, l.session_count as nat, rows.len())
        + oneline_rows(rows, rows.len() as int)
}

/// The word after a project's session count.
pub open spec fn session_word(n: usize) -> Seq<char> {
    if n == 1 {
        "session"@
    } else {
        "sessions"@
    }
}

/// A project's latest time, or `none`; the time must be representable.
pub open spec fn latest_text(p: ProjectRowV) -> Seq<char> {
    match p.latest_session_at {
        Some((s, n)) => utc_stamp_text(s, n)->Some_0,
        None => "none"@,
    }
}

/// The widths of the columns of a project listing: the widest encoded
/// directory, session count, count word and latest time among its rows.
pub open spec fn project_widths(p: Seq<ProjectRowV>) -> (nat, nat, nat, nat) {
    (
        widest(p.map_values(|x: ProjectRowV| x.encoded_cwd)),
        widest(p.map_values(|x: ProjectRowV| decimal(x.session_count as nat))),
        widest(p.map_values(|x: ProjectRowV| session_word(x.session_count))),
        widest(p.map_values(|x: ProjectRowV| latest_text(x))),
    )
}

/// The line of one project: the encoded directory, count word and latest
/// time padded to their columns' widths, the count right-aligned to its.
pub open spec fn project_line(p: ProjectRowV, w: (nat, nat, nat, nat)) -> Seq<char> {
    "  "@ + pad_end(p.encoded_cwd, w.0) + "   "@ + pad_start(decimal(p.session_count as nat), w.1)
        + " "@ + pad_end(session_word(p.session_count), w.2) + "   latest "@ + pad_end(
        latest_text(p),
        w.3,
    ) + "   "@ + cwd_text(p.project_cwd) + "\n"@
}

/// The lines of the first `n` projects.
pub open spec fn project_lines(p: Seq<ProjectRowV>, n: int) -> Seq<char>
    decreases n,
{
    if n <= 0 {
        Seq::empty()
    } else {
        project_lines(p, n - 1) + project_line(p[n - 1], project_widths(p))
    }
}

/// The rendering of a project listing.
pub open spec fn projects_text(l: ProjectListing) -> Seq<char> {
    let p = project_rows_view(l.projects@);
    "Log root  "@ + l.log_root@ + "   ("@ + decimal(p.len()) + " projects)\n"@ + if p.len() == 0 {
        Seq::empty()
    } else {
        "\n"@ + project_lines(p, p.len() as int)
    }
}

/// A session's subagent tree lines up its columns: on every row the name
/// and status are padded to the widest among the session's subagents and
/// the duration and token count right-aligned to the widest, so each column
/// starts in the same place on every row, and the padding keeps each text
/// whole.
pub proof fn law_tree_columns_aligned(s: Seq<SubagentSummaryV>, c: Seq<SubagentSidecarV>)
    requires
        c.len() == s.len(),
    ensures
        forall|k: int|
            #![trigger s[k]]
            0 <= k < s.len() ==> {
                &&& pad_end(subagent_name_cell(s[k]), tree_widths(s, c).0).len() == tree_widths(s, c).0
                &&& pad_end(subagent_name_cell(s[k]), tree_widths(s, c).0).take(
                    subagent_name_cell(s[k]).len() as int,
                ) == subagent_name_cell(s[k])
                &&& pad_end(s[k].status, tree_widths(s, c).1).len() == tree_widths(s, c).1
                &&& pad_end(s[k].status, tree_widths(s, c).1).take(s[k].status.len() as int) == s[k].status
                &&& pad_start(duration_col(s[k], c[k]), tree_widths(s, c).2).len() == tree_widths(s, c).2
                &&& pad_start(duration_col(s[k], c[k]), tree_widths(s, c).2).skip(
                    tree_widths(s, c).2 - duration_col(s[k], c[k]).len(),
                ) == duration_col(s[k], c[k])
                &&& pad_start(token_cell(s[k]), tree_widths(s, c).3).len() == tree_widths(s, c).3
                &&& pad_start(token_cell(s[k]), tree_widths(s, c).3).skip(
                    tree_widths(s, c).3 - token_cell(s[k]).len(),
                ) == token_cell(s[k])
            },
{
    let names = s.map_values(|x: SubagentSummaryV| subagent_name_cell(x));
    let statuses = s.map_values(|x: SubagentSummaryV| x.status);
    let durs = Seq::new(s.len(), |i: int| duration_col(s[i], c[i]));
    let toks = s.map_values(|x: SubagentSummaryV| token_cell(x));
    lemma_widest_pads(names);
    lemma_widest_pads(statuses);
    lemma_widest_pads(durs);
    lemma_widest_pads(toks);
    assert forall|k: int| #![trigger s[k]] 0 <= k < s.len() implies {
        &&& pad_end(subagent_name_cell(s[k]), tree_widths(s, c).0).len() == tree_widths(s, c).0
        &&& pad_end(subagent_name_cell(s[k]), tree_widths(s, c).0).take(
            subagent_name_cell(s[k]).len() as int,
        ) == subagent_name_cell(s[k])
        &&& pad_end(s[k].status, tree_widths(s, c).1).len() == tree_widths(s, c).1
        &&& pad_end(s[k].status, tree_widths(s, c).1).take(s[k].status.len() as int) == s[k].status
        &&& pad_start(duration_col(s[k], c[k]), tree_widths(s, c).2).len() == tree_widths(s, c).2
        &&& pad_start(duration_col(s[k], c[k]), tree_widths(s, c).2).skip(
            tree_widths(s, c).2 - duration_col(s[k], c[k]).len(),
        ) == duration_col(s[k], c[k])
        &&& pad_start(token_cell(s[k]), tree_widths(s, c).3).len() == tree_widths(s, c).3
        &&& pad_start(token_cell(s[k]), tree_widths(s, c).3).skip(
            tree_widths(s, c).3 - token_cell(s[k]).len(),
        ) == token_cell(s[k])
    } by {
        assert(names[k] == subagent_name_cell(s[k]));
        assert(statuses[k] == s[k].status);
        assert(durs[k] == duration_col(s[k], c[k]));
        assert(toks[k] == token_cell(s[k]));
    }
}

/// A project listing lines up its columns: on every row the encoded
/// directory, the count word and the latest time are padded to the widest
/// among the rows and the session count right-aligned to the widest, and
/// the padding keeps each text whole.
pub proof fn law_project_columns_aligned(p: Seq<ProjectRowV>)
    ensures
        forall|k: int|
            #![trigger p[k]]
            0 <= k < p.len() ==> {
                &&& pad_end(p[k].encoded_cwd, project_widths(p).0).len() == project_widths(p).0
                &&& pad_end(p[k].encoded_cwd, project_widths(p).0).take(p[k].encoded_cwd.len() as int)
                    == p[k].encoded_cwd
                &&& pad_start(decimal(p[k].session_count as nat), project_widths(p).1).len()
                    == project_widths(p).1
                &&& pad_start(decimal(p[k].session_count as nat), project_widths(p).1).skip(
                    project_widths(p).1 - decimal(p[k].session_count as nat).len(),
                ) == decimal(p[k].session_count as nat)
                &&& pad_end(session_word(p[k].session_count), project_widths(p).2).len()
                    == project_widths(p).2
                &&& pad_end(latest_text(p[k]), project_widths(p).3).len() == project_widths(p).3
                &&& pad_end(latest_text(p[k]), project_widths(p).3).take(latest_text(p[k]).len() as int)
                    == latest_text(p[k])
            },
{
    let encs = p.map_values(|x: ProjectRowV| x.encoded_cwd);
    let counts = p.map_values(|x: ProjectRowV| decimal(x.session_count as nat));
    let words = p.map_values(|x: ProjectRowV| session_word(x.session_count));
    let latests = p.map_values(|x: ProjectRowV| latest_text(x));
    lemma_widest_pads(encs);
    lemma_widest_pads(counts);
    lemma_widest_pads(words);
    lemma_widest_pads(latests);
    assert forall|k: int| #![trigger p[k]] 0 <= k < p.len() implies {
        &&& pad_end(p[k].encoded_cwd, project_widths(p).0).len() == project_widths(p).0
        &&& pad_end(p[k].encoded_cwd, project_widths(p).0).take(p[k].encoded_cwd.len() as int)
            == p[k].encoded_cwd
        &&& pad_start(decimal(p[k].session_count as nat), project_widths(p).1).len()
            == project_widths(p).1
        &&& pad_start(decimal(p[k].session_count as nat), project_widths(p).1).skip(
            project_widths(p).1 - decimal(p[k].session_count as nat).len(),
        ) == decimal(p[k].session_count as nat)
        &&& pad_end(session_word(p[k].session_count), project_widths(p).2).len()
            == project_widths(p).2
        &&& pad_end(latest_text(p[k]), project_widths(p).3).len() == project_widths(p).3
        &&& pad_end(latest_text(p[k]), project_widths(p).3).take(latest_text(p[k]).len() as int)
            == latest_text(p[k])
    } by {
        assert(encs[k] == p[k].encoded_cwd);
        assert(counts[k] == decimal(p[k].session_count as nat));
        assert(words[k] == session_word(p[k].session_count));
        assert(latests[k] == latest_text(p[k]));
    }
}

/// The limit is applied after sorting: the listed rows are the first rows
/// of the sorted list, all of them where no limit is given or the limit is
/// not below their number. So the count line says `(showing M)` exactly
/// when a limit below the number of rows cut the list, and `M` is that
/// limit.
pub proof fn law_limit_after_sorting<T>(rows: Seq<T>, limit: Option<usize>)
    ensures
        limited(rows, limit) == rows.take(limited(rows, limit).len() as int),
        limited(rows, limit).len() < rows.len() <==> (limit matches Some(n) && n < rows.len()),
        sessions_count_line(rows.len(), limited(rows, limit).len()) == match limit {
            Some(n) => if n < rows.len() {
                "Sessions  "@ + decimal(rows.len()) + " total   (showing "@ + decimal(n as nat) + ")\n"@
            } else {
                "Sessions  "@ + decimal(rows.len()) + " total\n"@
            },
            None => "Sessions  "@ + decimal(rows.len()) + " total\n"@,
        },
{
    assert(rows.take(rows.len() as int) =~= rows);
}

/// A subagent's description line shows at most 80 characters: the meta
/// sidecar's description where it fits, else its first 79 characters and an
/// ellipsis, and `(no description)` where the sidecar or its description
/// is missing.
pub proof fn law_description_fits(meta: Option<crate::json::JsonV>)
    ensures
        description_text(meta).len() <= 80,
        match meta {
            Some(m) => match str_member(m, "description"@) {
                Some(d) => d.len() <= 80 ==> description_text(meta) == d,
                None => description_text(meta) == "(no description)"@,
            },
            None => description_text(meta) == "(no description)"@,
        },
{
    reveal_strlit("(no description)");
}

/// In the one-line listing every row starts with at most 8 characters of
/// the session id, and the status column is 8 wide on every row, so the
/// dates line up wherever the ids are at least 8 characters long.
pub proof fn law_oneline_status_column(r: SessionRowV)
    ensures
        take_chars(r.session_id, 8).len() <= 8,
        r.session_id.len() >= 8 ==> take_chars(r.session_id, 8).len() == 8,
        pad_end(status_text(r.status), 8).len() == 8,
        pad_end(status_text(r.status), 8).take(status_text(r.status).len() as int) == status_text(r.status),
{
    reveal_strlit("success");
    reveal_strlit("error");
    reveal_strlit("aborted");
    reveal_strlit("unknown");
    assert(pad_end(status_text(r.status), 8).take(status_text(r.status).len() as int) =~= status_text(
        r.status,
    ));
}

/// Every project's latest time is representable.
pub open spec fn latest_times_in_range(l: ProjectListing) -> bool {
    forall|k: int|
        0 <= k < l.projects@.len() ==> match #[trigger] l.projects@[k].latest_session_at {
            Some((s, n)) => utc_representable(s, n),
            None => true,
        }
}

/// Whether every project's latest time is representable, as
/// `format_projects` needs.
pub fn latest_times_representable(listing: &ProjectListing) -> (r: bool)
    ensures
        r == latest_times_in_range(*listing),
{
    let mut i: usize = 0;
    while i < listing.projects.len()
        invariant
            0 <= i <= listing.projects@.len(),
            forall|k: int|
                0 <= k < i ==> match #[trigger] listing.projects@[k].latest_session_at {
                    Some((s, n)) => utc_representable(s, n),
                    None => true,
                },
        decreases listing.projects.len() - i,
    {
        match listing.projects[i].latest_session_at {
            Some((s, n)) => {
                if !is_utc_representable(s, n) {
                    return false;
                }
            },
            None => {},
        }
        i = i + 1;
    }
    true
}

/// Cuts a text to `max` characters, the last an ellipsis, where it is
/// longer.
pub fn truncate_to(s: &str, max: usize) -> (r: String)
    requires
        max >= 1,
    ensures
        r@ == truncated(s@, max as nat),
{
    let chars = crate::text::chars_of(s);
    if chars.len() <= max {
        return s.to_owned();
    }
    let mut out = String::new();
    let mut i: usize = 0;
    while i < max - 1
        invariant
            0 <= i <= max - 1,
            max - 1 < chars@.len(),
            chars@ == s@,
            out@ == s@.take(i as int),
        decreases max - 1 - i,
    {
        push_char(&mut out, chars[i]);
        assert(out@ =~= s@.take(i + 1));
        i = i + 1;
    }
    push_char(&mut out, '…');
    out
}

/// The dominant tool of a run, `name=count`, where it used any of bash,
/// read, search or edit.
pub fn dominant_tool(stats: &ToolStats) -> (r: Option<String>)
    ensures
        match r {
            Some(t) => dominant_text(*stats) == Some(t@),
            None => dominant_text(*stats) is None,
        },
{
    let a = if stats.bash_count >= stats.read_count { stats.bash_count } else { stats.read_count };
    let b = if stats.search_count >= stats.edit_file_count {
        stats.search_count
    } else {
        stats.edit_file_count
    };
    let m = if a >= b { a } else { b };
    if m == 0 {
        return None;
    }
    let mut out = String::new();
    if stats.bash_count == m {
        out.append("bash=");
    } else if stats.read_count == m {
        out.append("read=");
    } else if stats.search_count == m {
        out.append("search=");
    } else {
        out.append("edit=");
    }
    push_u64(&mut out, m);
    Some(out)
}

/// The printed word of a status.
pub fn status_str(status: SessionStatus) -> (r: &'static str)
    ensures
        r@ == status_text(status),
{
    match status {
        SessionStatus::Success => "success",
        SessionStatus::Error => "error",
        SessionStatus::Aborted => "aborted",
        SessionStatus::Unknown => "unknown",
    }
}

/// The title line of a session.
pub fn compute_title(session: &SessionRow) -> (r: String)
    ensures
        r@ == title_text(session@),
{
    match &session.ai_title {
        Some(t) => {
            if t.as_str().unicode_len() > 0 {
                return t.clone();
            }
        },
        None => {},
    }
    match &session.first_user_message_excerpt {
        Some(e) => {
            if e.as_str().unicode_len() > 0 {
                let mut out = String::new();
                out.append("(untitled) \"");
                out.append(e.as_str());
                out.append("\"");
                return out;
            }
        },
        None => {},
    }
    if session.status == SessionStatus::Unknown {
        "(could not read session)".to_owned()
    } else {
        "(no content)".to_owned()
    }
}

/// A timestamp at second precision with a `Z` suffix, where it parses.
fn reformat_to_z(raw: &str) -> (r: Option<String>)
    ensures
        match r {
            Some(t) => rfc3339_stamp_text(raw@) == Some(t@),
            None => rfc3339_stamp_text(raw@) is None,
        },
        r matches Some(t) ==> stamp_chars(t@),
{
    stamp_text(raw)
}

/// The start of a session as printed, empty where it is missing or does
/// not parse.
fn date_of(session: &SessionRow) -> (r: String)
    ensures
        r@ == date_text(session@),
        stamp_chars(r@),
{
    match &session.started_at {
        Some(t) => match reformat_to_z(t.as_str()) {
            Some(z) => z,
            None => String::new(),
        },
        None => String::new(),
    }
}

/// The description a meta sidecar gives, cut to 80 characters.
fn meta_description(meta: &Option<JsonValue>) -> (r: String)
    ensures
        r@ == description_text(
            match *meta {
                Some(m) => Some(m@),
                None => None,
            },
        ),
{
    match meta {
        Some(m) => match str_member_of(m, "description") {
            Some(d) => truncate_to(d.as_str(), 80),
            None => "(no description)".to_owned(),
        },
        None => "(no description)".to_owned(),
    }
}

fn duration_column(sub: &SubagentSummary, side: &SubagentSidecar) -> (r: String)
    ensures
        r@ == duration_col(sub@, side@),
{
    match sub.total_duration_ms {
        Some(_) => {
            let mut d = side.seconds.clone();
            d.append("s");
            d
        },
        None => "-".to_owned(),
    }
}

fn token_cell_of(sub: &SubagentSummary) -> (r: String)
    ensures
        r@ == token_cell(sub@),
{
    let mut out = String::new();
    match sub.total_tokens {
        Some(t) => {
            push_u64(&mut out, t);
            out.append(" tok");
        },
        None => {
            out.append("- tok");
        },
    }
    out
}

fn push_dominant_suffix(out: &mut String, sub: &SubagentSummary)
    ensures
        final(out)@ == old(out)@ + dominant_suffix(sub@),
{
    let ghost base = out@;
    match &sub.tool_stats {
        Some(st) => match dominant_tool(st) {
            Some(d) => {
                out.append("   ");
                out.append(d.as_str());
            },
            None => {},
        },
        None => {},
    }
    assert(out@ =~= base + dominant_suffix(sub@));
}

fn subagent_name_of(sub: &SubagentSummary) -> (r: String)
    ensures
        r@ == subagent_name_cell(sub@),
{
    let mut n = sub.agent_type.clone();
    n.append(" ");
    n.append(sub.agent_id.as_str());
    n
}

#[verifier::rlimit(40)]
#[verifier::spinoff_prover]
fn push_subagent_head(
    out: &mut String,
    sub: &SubagentSummary,
    side: &SubagentSidecar,
    last: bool,
    w: (usize, usize, usize, usize),
)
    ensures
        final(out)@ == old(out)@ + subagent_head_line(
            sub@,
            side@,
            last,
            (w.0 as nat, w.1 as nat, w.2 as nat, w.3 as nat),
        ),
{
    out.append("      ");
    out.append(if last { "└─" } else { "├─" });
    out.append(" ");
    let name = subagent_name_of(sub);
    push_pad_end(out, name.as_str(), w.0);
    out.append("   ");
    push_pad_end(out, sub.status.as_str(), w.1);
    out.append("   ");
    let d = duration_column(sub, side);
    push_pad_start(out, d.as_str(), w.2);
    out.append("   ");
    let t = token_cell_of(sub);
    push_pad_start(out, t.as_str(), w.3);
    push_dominant_suffix(out, sub);
    out.append("\n");
}

fn push_subagent_desc(out: &mut String, side: &SubagentSidecar, last: bool)
    ensures
        final(out)@ == old(out)@ + subagent_desc_line(side@, last),
{
    out.append("      ");
    out.append(if last { " " } else { "│" });
    out.append("     ");
    let d = meta_description(&side.meta);
    out.append(d.as_str());
    out.append("\n");
}

/// The column widths of a session's subagent tree.
fn subagent_tree_widths(subagents: &Vec<SubagentSummary>, sidecars: &Vec<SubagentSidecar>) -> (r: (
    usize,
    usize,
    usize,
    usize,
))
    requires
        sidecars@.len() == subagents@.len(),
    ensures
        (r.0 as nat, r.1 as nat, r.2 as nat, r.3 as nat) == tree_widths(
            summaries_view(subagents@),
            sidecars_view(sidecars@),
        ),
{
    let ghost sv = summaries_view(subagents@);
    let ghost cv = sidecars_view(sidecars@);
    let ghost names_v = sv.map_values(|x: SubagentSummaryV| subagent_name_cell(x));
    let ghost status_v = sv.map_values(|x: SubagentSummaryV| x.status);
    let ghost dur_v = Seq::new(sv.len(), |i: int| duration_col(sv[i], cv[i]));
    let ghost tok_v = sv.map_values(|x: SubagentSummaryV| token_cell(x));
    let mut names: Vec<String> = Vec::new();
    let mut statuses: Vec<String> = Vec::new();
    let mut durs: Vec<String> = Vec::new();
    let mut toks: Vec<String> = Vec::new();
    let mut i: usize = 0;
    while i < subagents.len()
        invariant
            0 <= i <= subagents@.len(),
            sidecars@.len() == subagents@.len(),
            sv == summaries_view(subagents@),
            cv == sidecars_view(sidecars@),
            names_v == sv.map_values(|x: SubagentSummaryV| subagent_name_cell(x)),
            status_v == sv.map_values(|x: SubagentSummaryV| x.status),
            dur_v == Seq::new(sv.len(), |i: int| duration_col(sv[i], cv[i])),
            tok_v == sv.map_values(|x: SubagentSummaryV| token_cell(x)),
            names@.len() == i && statuses@.len() == i && durs@.len() == i && toks@.len() == i,
            texts_view(names@) == names_v.take(i as int),
            texts_view(statuses@) == status_v.take(i as int),
            texts_view(durs@) == dur_v.take(i as int),
            texts_view(toks@) == tok_v.take(i as int),
        decreases subagents.len() - i,
    {
        assert(sv[i as int] == subagents@[i as int]@);
        assert(cv[i as int] == sidecars@[i as int]@);
        let ghost (n0, s0, d0, t0) = (names@, statuses@, durs@, toks@);
        names.push(subagent_name_of(&subagents[i]));
        statuses.push(subagents[i].status.clone());
        durs.push(duration_column(&subagents[i], &sidecars[i]));
        toks.push(token_cell_of(&subagents[i]));
        proof {
            assert forall|k: int| 0 <= k < i + 1 implies {
                &&& texts_view(names@)[k] == names_v.take(i + 1)[k]
                &&& texts_view(statuses@)[k] == status_v.take(i + 1)[k]
                &&& texts_view(durs@)[k] == dur_v.take(i + 1)[k]
                &&& texts_view(toks@)[k] == tok_v.take(i + 1)[k]
            } by {
                if k < i {
                    assert(names@[k] == n0[k] && statuses@[k] == s0[k]);
                    assert(durs@[k] == d0[k] && toks@[k] == t0[k]);
                    assert(texts_view(n0)[k] == names_v.take(i as int)[k]);
                    assert(texts_view(s0)[k] == status_v.take(i as int)[k]);
                    assert(texts_view(d0)[k] == dur_v.take(i as int)[k]);
                    assert(texts_view(t0)[k] == tok_v.take(i as int)[k]);
                }
            }
            assert(texts_view(names@) =~= names_v.take(i + 1));
            assert(texts_view(statuses@) =~= status_v.take(i + 1));
            assert(texts_view(durs@) =~= dur_v.take(i + 1));
            assert(texts_view(toks@) =~= tok_v.take(i + 1));
        }
        i = i + 1;
    }
    assert(names_v.take(sv.len() as int) =~= names_v);
    assert(status_v.take(sv.len() as int) =~= status_v);
    assert(dur_v.take(sv.len() as int) =~= dur_v);
    assert(tok_v.take(sv.len() as int) =~= tok_v);
    (widest_of(&names), widest_of(&statuses), widest_of(&durs), widest_of(&toks))
}

/// Appends the subagent tree of a session.
fn push_subagent_tree(out: &mut String, subagents: &Vec<SubagentSummary>, sidecars: &Vec<SubagentSidecar>)
    requires
        sidecars@.len() == subagents@.len(),
    ensures
        final(out)@ == old(out)@ + subagent_tree(
            summaries_view(subagents@),
            sidecars_view(sidecars@),
            subagents@.len() as int,
        ),
{
    let ghost sv = summaries_view(subagents@);
    let ghost cv = sidecars_view(sidecars@);
    let w = subagent_tree_widths(subagents, sidecars);
    let total = subagents.len();
    let ghost head = out@;
    let mut i: usize = 0;
    while i < total
        invariant
            0 <= i <= total,
            total == subagents@.len(),
            sidecars@.len() == total,
            sv == summaries_view(subagents@),
            cv == sidecars_view(sidecars@),
            (w.0 as nat, w.1 as nat, w.2 as nat, w.3 as nat) == tree_widths(sv, cv),
            out@ == head + subagent_tree(sv, cv, i as int),
        decreases total - i,
    {
        let last = i == total - 1;
        assert(sv[i as int] == subagents@[i as int]@);
        assert(cv[i as int] == sidecars@[i as int]@);
        push_subagent_head(out, &subagents[i], &sidecars[i], last, w);
        push_subagent_desc(out, &sidecars[i], last);
        i = i + 1;
    }
}

fn push_count_line(out: &mut String, count: usize, shown: usize)
    ensures
        final(out)@ == old(out)@ + sessions_count_line(count as nat, shown as nat),
{
    if count > shown {
        out.append("Sessions  ");
        push_usize(out, count);
        out.append(" total   (showing ");
        push_usize(out, shown);
        out.append(")\n");
    } else {
        out.append("Sessions  ");
        push_usize(out, count);
        out.append(" total\n");
    }
}

/// Appends the header of a session listing.
fn push_session_header(out: &mut String, listing: &SessionListing)
    ensures
        final(out)@ == old(out)@ + sessions_header_text(
            opt_view(listing.project_cwd),
            listing.encoded_cwd@,
            listing.session_count as nat,
            listing.sessions@.len(),
        ),
{
    out.append("Project   ");
    match &listing.project_cwd {
        Some(p) => out.append(p.as_str()),
        None => {},
    }
    out.append("\n");
    out.append("Encoded   ");
    out.append(listing.encoded_cwd.as_str());
    out.append("\n");
    push_count_line(out, listing.session_count, listing.sessions.len());
    out.append("\n");
}

/// Appends the block of one session.
#[verifier::rlimit(40)]
#[verifier::spinoff_prover]
fn push_session_block(out: &mut String, session: &SessionRow, sidecars: &Vec<SubagentSidecar>)
    requires
        sidecars@.len() == session.subagents@.len(),
    ensures
        final(out)@ == old(out)@ + session_block_text(session@, sidecars_view(sidecars@)),
        stamp_chars(date_text(session@)),
{
    out.append("session ");
    out.append(session.session_id.as_str());
    out.append("\n");
    out.append("Status: ");
    out.append(status_str(session.status));
    out.append("\n");
    out.append("Date:   ");
    let date = date_of(session);
    out.append(date.as_str());
    out.append("\n");
    out.append("\n");
    let title = compute_title(session);
    out.append("    ");
    out.append(title.as_str());
    out.append("\n");
    if session.subagents.len() > 0 {
        out.append("\n");
        out.append("    Subagents (");
        push_usize(out, session.subagents.len());
        out.append("):\n");
        push_subagent_tree(out, &session.subagents, sidecars);
    }
}

/// The default, git-log-like rendering of a session listing: the header,
/// then a block per session; `sidecars[i][k]` is what the `k`-th subagent
/// of the `i`-th session needs from outside its log.
pub fn format_sessions_default(listing: &SessionListing, sidecars: &Vec<Vec<SubagentSidecar>>) -> (r:
    String)
    requires
        sidecars@.len() == listing.sessions@.len(),
        forall|i: int|
            0 <= i < sidecars@.len() ==> (#[trigger] sidecars@[i])@.len()
                == listing.sessions@[i].subagents@.len(),
    ensures
        r@ == sessions_default_text(*listing, all_sidecars_view(sidecars@)),
        forall|k: int|
            0 <= k < listing.sessions@.len() ==> stamp_chars(
                date_text(#[trigger] rows_view(listing.sessions@)[k]),
            ),
{
    let ghost rows = rows_view(listing.sessions@);
    let ghost cv = all_sidecars_view(sidecars@);
    let mut out = String::new();
    push_session_header(&mut out, listing);
    let ghost head = out@;
    let mut i: usize = 0;
    while i < listing.sessions.len()
        invariant
            0 <= i <= listing.sessions@.len(),
            rows == rows_view(listing.sessions@),
            cv == all_sidecars_view(sidecars@),
            sidecars@.len() == listing.sessions@.len(),
            forall|j: int|
                0 <= j < sidecars@.len() ==> (#[trigger] sidecars@[j])@.len()
                    == listing.sessions@[j].subagents@.len(),
            out@ == head + session_blocks(rows, cv, i as int),
            forall|k: int| 0 <= k < i ==> stamp_chars(date_text(#[trigger] rows[k])),
        decreases listing.sessions.len() - i,
    {
        if i > 0 {
            out.append("\n");
        }
        assert(rows[i as int] == listing.sessions@[i as int]@);
        assert(cv[i as int] == sidecars_view(sidecars@[i as int]@));
        push_session_block(&mut out, &listing.sessions[i], &sidecars[i]);
        i = i + 1;
    }
    out
}

fn push_oneline(out: &mut String, session: &SessionRow)
    ensures
        final(out)@ == old(out)@ + oneline_text(session@),
        stamp_chars(date_text(session@)),
{
    let prefix = truncate_chars(session.session_id.as_str(), 8);
    out.append(prefix.as_str());
    out.append("  ");
    let st = status_str(session.status);
    push_pad_end(out, st, 8);
    out.append("  ");
    let date = date_of(session);
    out.append(date.as_str());
    out.append("   ");
    let title = compute_title(session);
    out.append(title.as_str());
    let count = session.subagents.len();
    if count == 1 {
        out.append("   [1 subagent]");
    } else if count > 1 {
        out.append("   [");
        push_usize(out, count);
        out.append(" subagents]");
    }
    out.append("\n");
}

/// The one-line rendering of a session listing: the header, then one line
/// per session; no subagent tree.
pub fn format_sessions_oneline(listing: &SessionListing) -> (r: String)
    ensures
        r@ == sessions_oneline_text(*listing),
        forall|k: int|
            0 <= k < listing.sessions@.len() ==> stamp_chars(
                date_text(#[trigger] rows_view(listing.sessions@)[k]),
            ),
{
    let ghost rows = rows_view(listing.sessions@);
    let mut out = String::new();
    push_session_header(&mut out, listing);
    let ghost head = out@;
    let mut i: usize = 0;
    while i < listing.sessions.len()
        invariant
            0 <= i <= listing.sessions@.len(),
            rows == rows_view(listing.sessions@),
            out@ == head + oneline_rows(rows, i as int),
            forall|k: int| 0 <= k < i ==> stamp_chars(date_text(#[trigger] rows[k])),
        decreases listing.sessions.len() - i,
    {
        assert(rows[i as int] == listing.sessions@[i as int]@);
        push_oneline(&mut out, &listing.sessions[i]);
        i = i + 1;
    }
    out
}

/// The latest time of a project, rendered, or `none`.
fn latest_text_of(p: &ProjectRow) -> (r: String)
    requires
        match p.latest_session_at {
            Some((s, n)) => utc_representable(s, n),
            None => true,
        },
    ensures
        r@ == latest_text(p@),
        p.latest_session_at is Some ==> stamp_chars(r@),
{
    match p.latest_session_at {
        Some((s, n)) => match utc_stamp(s, n) {
            Some(t) => t,
            None => String::new(),
        },
        None => "none".to_owned(),
    }
}

/// The column widths of a project listing.
fn project_column_widths(listing: &ProjectListing) -> (r: (usize, usize, usize, usize))
    requires
        latest_times_in_range(*listing),
    ensures
        (r.0 as nat, r.1 as nat, r.2 as nat, r.3 as nat) == project_widths(
            project_rows_view(listing.projects@),
        ),
{
    let ghost pv = project_rows_view(listing.projects@);
    let ghost enc_v = pv.map_values(|x: ProjectRowV| x.encoded_cwd);
    let ghost count_v = pv.map_values(|x: ProjectRowV| decimal(x.session_count as nat));
    let ghost word_v = pv.map_values(|x: ProjectRowV| session_word(x.session_count));
    let ghost latest_v = pv.map_values(|x: ProjectRowV| latest_text(x));
    let mut encs: Vec<String> = Vec::new();
    let mut counts: Vec<String> = Vec::new();
    let mut words: Vec<String> = Vec::new();
    let mut latests: Vec<String> = Vec::new();
    let mut i: usize = 0;
    while i < listing.projects.len()
        invariant
            0 <= i <= listing.projects@.len(),
            latest_times_in_range(*listing),
            pv == project_rows_view(listing.projects@),
            enc_v == pv.map_values(|x: ProjectRowV| x.encoded_cwd),
            count_v == pv.map_values(|x: ProjectRowV| decimal(x.session_count as nat)),
            word_v == pv.map_values(|x: ProjectRowV| session_word(x.session_count)),
            latest_v == pv.map_values(|x: ProjectRowV| latest_text(x)),
            encs@.len() == i && counts@.len() == i && words@.len() == i && latests@.len() == i,
            texts_view(encs@) == enc_v.take(i as int),
            texts_view(counts@) == count_v.take(i as int),
            texts_view(words@) == word_v.take(i as int),
            texts_view(latests@) == latest_v.take(i as int),
        decreases listing.projects.len() - i,
    {
        let p = &listing.projects[i];
        assert(pv[i as int] == p@);
        let ghost (e0, c0, w0, l0) = (encs@, counts@, words@, latests@);
        encs.push(p.encoded_cwd.clone());
        let mut c = String::new();
        push_usize(&mut c, p.session_count);
        counts.push(c);
        words.push(if p.session_count == 1 { "session".to_owned() } else { "sessions".to_owned() });
        latests.push(latest_text_of(p));
        proof {
            assert forall|k: int| 0 <= k < i + 1 implies {
                &&& texts_view(encs@)[k] == enc_v.take(i + 1)[k]
                &&& texts_view(counts@)[k] == count_v.take(i + 1)[k]
                &&& texts_view(words@)[k] == word_v.take(i + 1)[k]
                &&& texts_view(latests@)[k] == latest_v.take(i + 1)[k]
            } by {
                if k < i {
                    assert(encs@[k] == e0[k] && counts@[k] == c0[k]);
                    assert(words@[k] == w0[k] && latests@[k] == l0[k]);
                    assert(texts_view(e0)[k] == enc_v.take(i as int)[k]);
                    assert(texts_view(c0)[k] == count_v.take(i as int)[k]);
                    assert(texts_view(w0)[k] == word_v.take(i as int)[k]);
                    assert(texts_view(l0)[k] == latest_v.take(i as int)[k]);
                }
            }
            assert(texts_view(encs@) =~= enc_v.take(i + 1));
            assert(texts_view(counts@) =~= count_v.take(i + 1));
            assert(texts_view(words@) =~= word_v.take(i + 1));
            assert(texts_view(latests@) =~= latest_v.take(i + 1));
        }
        i = i + 1;
    }
    assert(enc_v.take(pv.len() as int) =~= enc_v);
    assert(count_v.take(pv.len() as int) =~= count_v);
    assert(word_v.take(pv.len() as int) =~= word_v);
    assert(latest_v.take(pv.len() as int) =~= latest_v);
    (widest_of(&encs), widest_of(&counts), widest_of(&words), widest_of(&latests))
}

#[verifier::rlimit(40)]
#[verifier::spinoff_prover]
fn push_project_line(out: &mut String, p: &ProjectRow, w: (usize, usize, usize, usize))
    requires
        match p.latest_session_at {
            Some((s, n)) => utc_representable(s, n),
            None => true,
        },
    ensures
        final(out)@ == old(out)@ + project_line(p@, (w.0 as nat, w.1 as nat, w.2 as nat, w.3 as nat)),
        p.latest_session_at is Some ==> stamp_chars(latest_text(p@)),
{
    out.append("  ");
    push_pad_end(out, p.encoded_cwd.as_str(), w.0);
    out.append("   ");
    let mut c = String::new();
    push_usize(&mut c, p.session_count);
    push_pad_start(out, c.as_str(), w.1);
    out.append(" ");
    push_pad_end(out, if p.session_count == 1 { "session" } else { "sessions" }, w.2);
    out.append("   latest ");
    let latest = latest_text_of(p);
    push_pad_end(out, latest.as_str(), w.3);
    out.append("   ");
    match &p.project_cwd {
        Some(c) => out.append(c.as_str()),
        None => {},
    }
    out.append("\n");
}

/// The rendering of a project listing: the log root and the project count,
/// then one line per project, in aligned columns.
pub fn format_projects(listing: &ProjectListing) -> (r: String)
    requires
        latest_times_in_range(*listing),
    ensures
        r@ == projects_text(*listing),
        forall|k: int|
            0 <= k < listing.projects@.len() && listing.projects@[k].latest_session_at is Some
                ==> stamp_chars(latest_text(#[trigger] project_rows_view(listing.projects@)[k])),
{
    let ghost p = project_rows_view(listing.projects@);
    let mut out = String::new();
    out.append("Log root  ");
    out.append(listing.log_root.as_str());
    out.append("   (");
    push_usize(&mut out, listing.projects.len());
    out.append(" projects)\n");
    if listing.projects.len() == 0 {
        return out;
    }
    out.append("\n");
    let w = project_column_widths(listing);
    let ghost head = out@;
    let mut i: usize = 0;
    while i < listing.projects.len()
        invariant
            0 <= i <= listing.projects@.len(),
            p == project_rows_view(listing.projects@),
            latest_times_in_range(*listing),
            (w.0 as nat, w.1 as nat, w.2 as nat, w.3 as nat) == project_widths(p),
            out@ == head + project_lines(p, i as int),
            forall|k: int|
                0 <= k < i && listing.projects@[k].latest_session_at is Some ==> stamp_chars(
                    latest_text(#[trigger] p[k]),
                ),
        decreases listing.projects.len() - i,
    {
        assert(p[i as int] == listing.projects@[i as int]@);
        push_project_line(&mut out, &listing.projects[i], w);
        i = i + 1;
    }
    out
}

} // verus!
