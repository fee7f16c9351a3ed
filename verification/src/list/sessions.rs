//! The sessions of one project: a row per log file, newest first, each
//! with its status and one-line summary fields.

use vstd::prelude::*;

use crate::json::JsonValue;
use crate::list::metadata::{
    extract_session_metadata, meta_of, slot_summaries, unreadable_metadata,
    SessionMetadata,
};
use crate::list::projects::newest_log;
use crate::locator::{cwd_resolution, first_cwd, first_cwd_of, lines_view, resolve_cwd, CwdSource};
use crate::parser::record::JsonlRecord;
use crate::report::{lines_decode_to, parse_lines};
use crate::text::{lemma_lex_total, lemma_lex_trans, lex_lt, str_lt};
use crate::timestamps::{parse_instant, rfc3339_instant};

verus! {

/// Whether a session finished cleanly, ended on a failed tool call, was cut
/// off with tool calls still open, or could not be read.
#[derive(Debug, Clone, Copy, PartialEq, Eq, Structural)]
pub enum SessionStatus {
    Success,
    Error,
    Aborted,
    Unknown,
}

/// The tool counts of a subagent run.
pub struct ToolStats {
    pub read_count: u64,
    pub search_count: u64,
    pub bash_count: u64,
    pub edit_file_count: u64,
    pub lines_added: u64,
    pub lines_removed: u64,
    pub other_tool_count: u64,
}

/// One `Task` launch of a session, as far as the session log shows it.
pub struct SubagentSummary {
    pub agent_id: String,
    pub agent_type: String,
    pub tool_use_id: String,
    pub description: Option<String>,
    pub status: String,
    pub total_duration_ms: Option<u64>,
    pub total_tokens: Option<u64>,
    pub total_tool_use_count: Option<u64>,
    pub tool_stats: Option<ToolStats>,
    pub log_path: Option<String>,
}

/// The model of a `SubagentSummary`.
pub struct SubagentSummaryV {
    pub agent_id: Seq<char>,
    pub agent_type: Seq<char>,
    pub tool_use_id: Seq<char>,
    pub description: Option<Seq<char>>,
    pub status: Seq<char>,
    pub total_duration_ms: Option<u64>,
    pub total_tokens: Option<u64>,
    pub total_tool_use_count: Option<u64>,
    pub tool_stats: Option<ToolStats>,
    pub log_path: Option<Seq<char>>,
}

/// The model of an optional string.
pub open spec fn opt_view(o: Option<String>) -> Option<Seq<char>> {
    match o {
        Some(s) => Some(s@),
        None => None,
    }
}

impl View for SubagentSummary {
    type V = SubagentSummaryV;

    open spec fn view(&self) -> SubagentSummaryV {
        SubagentSummaryV {
            agent_id: self.agent_id@,
            agent_type: self.agent_type@,
            tool_use_id: self.tool_use_id@,
            description: opt_view(self.description),
            status: self.status@,
            total_duration_ms: self.total_duration_ms,
            total_tokens: self.total_tokens,
            total_tool_use_count: self.total_tool_use_count,
            tool_stats: self.tool_stats,
            log_path: opt_view(self.log_path),
        }
    }
}

/// The model of a list of summaries.
pub open spec fn summaries_view(v: Seq<SubagentSummary>) -> Seq<SubagentSummaryV> {
    v.map_values(|s: SubagentSummary| s@)
}

/// One session of a project.
pub struct SessionRow {
    pub session_id: String,
    pub log_path: String,
    pub started_at: Option<String>,
    pub ended_at: Option<String>,
    pub status: SessionStatus,
    pub ai_title: Option<String>,
    pub first_user_message_excerpt: Option<String>,
    pub open_tool_uses: usize,
    pub last_tool_result_is_error: bool,
    pub subagents: Vec<SubagentSummary>,
}

/// The model of a `SessionRow`.
pub struct SessionRowV {
    pub session_id: Seq<char>,
    pub log_path: Seq<char>,
    pub started_at: Option<Seq<char>>,
    pub ended_at: Option<Seq<char>>,
    pub status: SessionStatus,
    pub ai_title: Option<Seq<char>>,
    pub first_user_message_excerpt: Option<Seq<char>>,
    pub open_tool_uses: usize,
    pub last_tool_result_is_error: bool,
    pub subagents: Seq<SubagentSummaryV>,
}

impl View for SessionRow {
    type V = SessionRowV;

    open spec fn view(&self) -> SessionRowV {
        SessionRowV {
            session_id: self.session_id@,
            log_path: self.log_path@,
            started_at: opt_view(self.started_at),
            ended_at: opt_view(self.ended_at),
            status: self.status,
            ai_title: opt_view(self.ai_title),
            first_user_message_excerpt: opt_view(self.first_user_message_excerpt),
            open_tool_uses: self.open_tool_uses,
            last_tool_result_is_error: self.last_tool_result_is_error,
            subagents: summaries_view(self.subagents@),
        }
    }
}

/// The model of a list of rows.
pub open spec fn rows_view(v: Seq<SessionRow>) -> Seq<SessionRowV> {
    v.map_values(|r: SessionRow| r@)
}

/// The sessions of one project.
pub struct SessionListing {
    pub log_root: String,
    pub encoded_cwd: String,
    pub project_cwd: Option<String>,
    pub cwd_source: CwdSource,
    /// The number of sessions in the project, before any limit.
    pub session_count: usize,
    /// The limit that was applied; 0 where there was none.
    pub limit: usize,
    pub sessions: Vec<SessionRow>,
}

/// A `.jsonl` log file of a project directory, as read from disk.
pub struct SessionFile {
    /// The file name without its extension.
    pub session_id: String,
    pub log_path: String,
    /// Each line parsed as JSON (`None` where it is not JSON); `None` where
    /// the file could not be opened.
    pub lines: Option<Vec<Option<JsonValue>>>,
    /// Each line, with trailing whitespace trimmed, parsed as JSON; empty
    /// where the file could not be opened.
    pub cwd_lines: Vec<Option<JsonValue>>,
    /// The modification time, as seconds and nanoseconds since the Unix
    /// epoch; `None` where it could not be read.
    pub modified: Option<(i64, u32)>,
}

/// Why a listing could not be made.
pub enum ListError {
    LogRootMissing { log_root: String },
    ProjectNotFound { encoded_cwd: String, log_root: String },
}

/// The message a listing error is reported with.
pub fn list_error_message(e: &ListError) -> (r: String)
    ensures
        match e {
            ListError::LogRootMissing { log_root } => r@ == "log root "@ + log_root@ + " does not exist"@,
            ListError::ProjectNotFound { encoded_cwd, log_root } => r@ == "project "@ + encoded_cwd@
                + " not found under "@ + log_root@,
        },
{
    let mut m = String::new();
    match e {
        ListError::LogRootMissing { log_root } => {
            m.append("log root ");
            m.append(log_root.as_str());
            m.append(" does not exist");
        },
        ListError::ProjectNotFound { encoded_cwd, log_root } => {
            m.append("project ");
            m.append(encoded_cwd.as_str());
            m.append(" not found under ");
            m.append(log_root.as_str());
        },
    }
    m
}

/// A session's status: unknown where it could not be read, aborted where
/// tool calls are still open, error where the last tool result failed,
/// else success.
pub open spec fn status_of(read_error: bool, open_tool_uses: nat, last_error: bool) -> SessionStatus {
    if read_error {
        SessionStatus::Unknown
    } else if open_tool_uses > 0 {
        SessionStatus::Aborted
    } else if last_error {
        SessionStatus::Error
    } else {
        SessionStatus::Success
    }
}

/// The status of a session from its metadata.
pub fn compute_status(metadata: &SessionMetadata) -> (r: SessionStatus)
    ensures
        r == status_of(
            metadata.read_error,
            metadata.open_tool_uses as nat,
            metadata.last_tool_result_is_error,
        ),
{
    if metadata.read_error {
        SessionStatus::Unknown
    } else if metadata.open_tool_uses > 0 {
        SessionStatus::Aborted
    } else if metadata.last_tool_result_is_error {
        SessionStatus::Error
    } else {
        SessionStatus::Success
    }
}

/// `row` is the row of a readable session whose records are `recs`.
pub open spec fn row_from_records(row: SessionRowV, recs: Seq<JsonlRecord>) -> bool {
    let st = meta_of(recs);
    &&& row.started_at == st.started_at
    &&& row.ended_at == st.ended_at
    &&& row.ai_title == st.ai_title
    &&& row.first_user_message_excerpt == st.excerpt
    &&& row.open_tool_uses == st.open.len()
    &&& row.last_tool_result_is_error == st.last_error
    &&& row.status == status_of(false, st.open.len(), st.last_error)
    &&& row.subagents == slot_summaries(st.slots)
}

/// `row` is the row of log file `f`: its id and path, and what its records
/// say, or nothing but status `unknown` where it could not be opened.
pub open spec fn is_row_of(row: SessionRowV, f: SessionFile) -> bool {
    &&& row.session_id == f.session_id@
    &&& row.log_path == f.log_path@
    &&& match f.lines {
        None => {
            &&& row.started_at is None
            &&& row.ended_at is None
            &&& row.ai_title is None
            &&& row.first_user_message_excerpt is None
            &&& row.open_tool_uses == 0
            &&& !row.last_tool_result_is_error
            &&& row.status == SessionStatus::Unknown
            &&& row.subagents.len() == 0
        },
        Some(lines) => exists|recs: Seq<JsonlRecord>, bad: Seq<usize>|
            #[trigger] lines_decode_to(lines_view(lines@), recs, bad) && row_from_records(row, recs),
    }
}

/// The row of one log file.
pub fn build_session_row(file: &SessionFile) -> (r: SessionRow)
    ensures
        is_row_of(r@, *file),
{
    let metadata = match &file.lines {
        Some(lines) => {
            let parsed = parse_lines(lines);
            let m = extract_session_metadata(parsed.records.as_slice());
            assert(lines_decode_to(lines_view(lines@), parsed.records@, parsed.malformed@));
            m
        },
        None => unreadable_metadata(),
    };
    let status = compute_status(&metadata);
    let row = SessionRow {
        session_id: file.session_id.clone(),
        log_path: file.log_path.clone(),
        started_at: metadata.started_at,
        ended_at: metadata.ended_at,
        status,
        ai_title: metadata.ai_title,
        first_user_message_excerpt: metadata.first_user_message_excerpt,
        open_tool_uses: metadata.open_tool_uses,
        last_tool_result_is_error: metadata.last_tool_result_is_error,
        subagents: metadata.subagents,
    };
    row
}

/// The instant a row's session started at, where its start parses.
pub open spec fn row_instant(r: SessionRowV) -> Option<(i64, u32)> {
    match r.started_at {
        Some(t) => rfc3339_instant(t),
        None => None,
    }
}

/// Strict order of instants.
pub open spec fn instant_lt(a: (i64, u32), b: (i64, u32)) -> bool {
    a.0 < b.0 || (a.0 == b.0 && a.1 < b.1)
}

/// Row `a` is listed before row `b`: the later start first, rows whose
/// start is missing or does not parse last, and equal starts by session
/// id.
pub open spec fn listed_before(a: SessionRowV, b: SessionRowV) -> bool {
    match (row_instant(a), row_instant(b)) {
        (Some(x), Some(y)) => instant_lt(y, x) || (x == y && lex_lt(a.session_id, b.session_id)),
        (Some(_), None) => true,
        (None, Some(_)) => false,
        (None, None) => lex_lt(a.session_id, b.session_id),
    }
}

/// Rows `a` and `b` take the same place in the order.
pub open spec fn same_place(a: SessionRowV, b: SessionRowV) -> bool {
    row_instant(a) == row_instant(b) && a.session_id == b.session_id
}

proof fn lemma_listed_trans(a: SessionRowV, b: SessionRowV, c: SessionRowV)
    requires
        listed_before(a, b) || same_place(a, b),
        listed_before(b, c) || same_place(b, c),
        listed_before(a, b) || listed_before(b, c),
    ensures
        listed_before(a, c),
{
    if listed_before(a, b) && listed_before(b, c) {
        if lex_lt(a.session_id, b.session_id) && lex_lt(b.session_id, c.session_id) {
            lemma_lex_trans(a.session_id, b.session_id, c.session_id);
        }
    }
}

proof fn lemma_listed_total(a: SessionRowV, b: SessionRowV)
    ensures
        listed_before(a, b) || listed_before(b, a) || same_place(a, b),
{
    if a.session_id != b.session_id {
        lemma_lex_total(a.session_id, b.session_id);
    }
}

/// `perm` lists each index below `n` once.
pub open spec fn is_permutation(perm: Seq<int>, n: int) -> bool {
    &&& perm.len() == n
    &&& forall|k: int| 0 <= k < n ==> 0 <= #[trigger] perm[k] < n
    &&& forall|a: int, b: int| 0 <= a < n && 0 <= b < n && a != b ==> perm[a] != perm[b]
}

/// Rows `out` are the rows of `files`, taken in the order `perm`, and are in
/// listing order; rows with the same place keep the order of their files.
pub open spec fn lists_files(out: Seq<SessionRowV>, perm: Seq<int>, files: Seq<SessionFile>) -> bool {
    &&& out.len() == files.len()
    &&& is_permutation(perm, files.len() as int)
    &&& forall|k: int| 0 <= k < out.len() ==> #[trigger] is_row_of(out[k], files[perm[k]])
    &&& forall|a: int, b: int|
        0 <= a < b < out.len() ==> listed_before(out[a], out[b]) || (same_place(out[a], out[b])
            && perm[a] < perm[b])
}

/// Whether row `a` (starting at `ka`) is listed before row `b` (at `kb`).
fn goes_before(a: &SessionRow, ka: Option<(i64, u32)>, b: &SessionRow, kb: Option<(i64, u32)>) -> (r: bool)
    requires
        ka == row_instant(a@),
        kb == row_instant(b@),
    ensures
        r == listed_before(a@, b@),
{
    match (ka, kb) {
        (Some(x), Some(y)) => y.0 < x.0 || (y.0 == x.0 && y.1 < x.1) || (x.0 == y.0 && x.1 == y.1
            && str_lt(&a.session_id, &b.session_id)),
        (Some(_), None) => true,
        (None, Some(_)) => false,
        (None, None) => str_lt(&a.session_id, &b.session_id),
    }
}

/// The instant a row's session started at.
fn start_instant(row: &SessionRow) -> (r: Option<(i64, u32)>)
    ensures
        r == row_instant(row@),
{
    match &row.started_at {
        Some(t) => parse_instant(t.as_str()),
        None => None,
    }
}

/// The rows of all log files, in listing order (a stable insertion sort).
#[verifier::rlimit(40)]
fn sorted_rows(files: &Vec<SessionFile>) -> (r: Vec<SessionRow>)
    ensures
        exists|perm: Seq<int>| lists_files(rows_view(r@), perm, files@),
{
    let mut out: Vec<SessionRow> = Vec::new();
    let mut keys: Vec<Option<(i64, u32)>> = Vec::new();
    let ghost mut perm: Seq<int> = Seq::empty();
    let mut i: usize = 0;
    while i < files.len()
        invariant
            0 <= i <= files@.len(),
            out@.len() == i,
            keys@.len() == i,
            forall|k: int| 0 <= k < i ==> #[trigger] keys@[k] == row_instant(out@[k]@),
            perm.len() == i,
            forall|k: int| 0 <= k < i ==> 0 <= #[trigger] perm[k] < i,
            forall|a: int, b: int| 0 <= a < i && 0 <= b < i && a != b ==> perm[a] != perm[b],
            forall|k: int| 0 <= k < i ==> #[trigger] is_row_of(out@[k]@, files@[perm[k]]),
            forall|a: int, b: int|
                0 <= a < b < i ==> listed_before(out@[a]@, out@[b]@) || (same_place(
                    out@[a]@,
                    out@[b]@,
                ) && perm[a] < perm[b]),
        decreases files.len() - i,
    {
        let row = build_session_row(&files[i]);
        let key = start_instant(&row);
        let mut p: usize = 0;
        while p < out.len() && !goes_before(&row, key, &out[p], keys[p])
            invariant
                0 <= p <= out@.len(),
                out@.len() == i,
                keys@.len() == i,
                key == row_instant(row@),
                forall|k: int| 0 <= k < i ==> #[trigger] keys@[k] == row_instant(out@[k]@),
                forall|j: int| 0 <= j < p ==> !listed_before(row@, #[trigger] out@[j]@),
            decreases out.len() - p,
        {
            p = p + 1;
        }
        let ghost old_out = out@;
        let ghost old_perm = perm;
        let ghost rv = row@;
        proof {
            assert forall|j: int| 0 <= j < p implies listed_before(#[trigger] old_out[j]@, rv)
                || same_place(old_out[j]@, rv) by {
                lemma_listed_total(old_out[j]@, rv);
            }
            if p < i {
                assert forall|j: int| p <= j < i implies listed_before(rv, #[trigger] old_out[j]@) by {
                    if j > p {
                        lemma_listed_trans(rv, old_out[p as int]@, old_out[j]@);
                    }
                }
            }
        }
        out.insert(p, row);
        keys.insert(p, key);
        proof {
            perm = perm.insert(p as int, i as int);
            assert forall|k: int| 0 <= k < i + 1 implies #[trigger] keys@[k] == row_instant(out@[k]@) by {
                if k < p {
                } else if k > p {
                    assert(out@[k] == old_out[k - 1]);
                }
            }
            assert forall|k: int| 0 <= k < i + 1 implies 0 <= #[trigger] perm[k] < i + 1 by {
                if k > p {
                    assert(perm[k] == old_perm[k - 1]);
                }
            }
            assert forall|a: int, b: int| 0 <= a < i + 1 && 0 <= b < i + 1 && a != b implies perm[a]
                != perm[b] by {
                if a != p && b != p {
                    let a0 = if a < p { a } else { a - 1 };
                    let b0 = if b < p { b } else { b - 1 };
                    assert(perm[a] == old_perm[a0] && perm[b] == old_perm[b0]);
                } else if a == p {
                    let b0 = if b < p { b } else { b - 1 };
                    assert(perm[b] == old_perm[b0]);
                } else {
                    let a0 = if a < p { a } else { a - 1 };
                    assert(perm[a] == old_perm[a0]);
                }
            }
            assert forall|k: int| 0 <= k < i + 1 implies #[trigger] is_row_of(out@[k]@, files@[perm[k]]) by {
                if k < p {
                    assert(out@[k] == old_out[k] && perm[k] == old_perm[k]);
                } else if k > p {
                    assert(out@[k] == old_out[k - 1] && perm[k] == old_perm[k - 1]);
                }
            }
            assert forall|a: int, b: int| 0 <= a < b < i + 1 implies listed_before(out@[a]@, out@[b]@)
                || (same_place(out@[a]@, out@[b]@) && perm[a] < perm[b]) by {
                let a0 = if a < p { a } else { a - 1 };
                let b0 = if b < p { b } else { b - 1 };
                if a != p && b != p {
                    assert(out@[a] == old_out[a0] && out@[b] == old_out[b0]);
                    assert(perm[a] == old_perm[a0] && perm[b] == old_perm[b0]);
                } else if a == p {
                    assert(out@[b] == old_out[b0]);
                    assert(listed_before(rv, old_out[b0]@));
                } else {
                    assert(out@[a] == old_out[a0]);
                    assert(perm[a] == old_perm[a0]);
                    assert(listed_before(old_out[a0]@, rv) || same_place(old_out[a0]@, rv));
                }
            }
        }
        i = i + 1;
    }
    assert(lists_files(rows_view(out@), perm, files@));
    out
}

/// The modification times of the log files.
pub open spec fn mtimes(files: Seq<SessionFile>) -> Seq<Option<(i64, u32)>> {
    files.map_values(|f: SessionFile| f.modified)
}

/// File `k` is the most recently modified one (among those whose time
/// could be read), and the first such where several share that time.
pub open spec fn is_newest(mods: Seq<Option<(i64, u32)>>, k: int) -> bool {
    &&& 0 <= k < mods.len()
    &&& mods[k] is Some
    &&& forall|j: int| 0 <= j < mods.len() && #[trigger] mods[j] is Some ==> !instant_lt(mods[k]->0, mods[j]->0)
    &&& forall|j: int| 0 <= j < k && #[trigger] mods[j] is Some ==> instant_lt(mods[j]->0, mods[k]->0)
}

/// The most recently modified file, where any modification time could be
/// read.
pub open spec fn newest_file(mods: Seq<Option<(i64, u32)>>) -> Option<int> {
    if exists|k: int| is_newest(mods, k) {
        Some(choose|k: int| is_newest(mods, k))
    } else {
        None
    }
}

/// A project's working directory, from the most recently modified log
/// file's first `cwd`, else reconstructed from the encoded name.
pub open spec fn project_cwd_of(files: Seq<SessionFile>, encoded: Seq<char>) -> (Seq<char>, CwdSource) {
    cwd_resolution(
        match newest_file(mtimes(files)) {
            Some(k) => first_cwd_of(lines_view(files[k].cwd_lines@)),
            None => None,
        },
        encoded,
    )
}

/// The index of the most recently modified file, if any time could be read.
fn newest_index(files: &Vec<SessionFile>) -> (r: Option<usize>)
    ensures
        match r {
            Some(k) => newest_file(mtimes(files@)) == Some(k as int),
            None => newest_file(mtimes(files@)) is None,
        },
{
    let mut mods: Vec<Option<(i64, u32)>> = Vec::new();
    let mut i: usize = 0;
    while i < files.len()
        invariant
            0 <= i <= files@.len(),
            mods@ == mtimes(files@).take(i as int),
        decreases files.len() - i,
    {
        mods.push(files[i].modified);
        assert(mods@ =~= mtimes(files@).take(i + 1));
        i = i + 1;
    }
    assert(mods@ =~= mtimes(files@));
    newest_log(&mods)
}

/// Resolves a project's working directory from its log files.
fn resolve_project_cwd(files: &Vec<SessionFile>, encoded_cwd: &str) -> (r: (String, CwdSource))
    ensures
        (r.0@, r.1) == project_cwd_of(files@, encoded_cwd@),
{
    let first = match newest_index(files) {
        Some(k) => first_cwd(&files[k].cwd_lines),
        None => None,
    };
    resolve_cwd(first, encoded_cwd)
}

/// The first `limit` rows, all of them where there is no limit.
pub open spec fn limited<T>(rows: Seq<T>, limit: Option<usize>) -> Seq<T> {
    match limit {
        Some(n) => if n < rows.len() {
            rows.take(n as int)
        } else {
            rows
        },
        None => rows,
    }
}

/// Lists the sessions of a project: one row per log file, newest start
/// first (rows without a parseable start last, ties by session id), cut to
/// `limit` rows where one is given; `session_count` counts them all and
/// `limit` echoes the limit, 0 for none. An error where the project
/// directory does not exist.
pub fn list_sessions(
    log_root: &str,
    encoded_cwd: &str,
    limit: Option<usize>,
    project_exists: bool,
    files: &Vec<SessionFile>,
) -> (r: Result<SessionListing, ListError>)
    ensures
        !project_exists ==> (r matches Err(ListError::ProjectNotFound { encoded_cwd: e, log_root: l })
            && e@ == encoded_cwd@ && l@ == log_root@),
        project_exists ==> r is Ok && {
            let l = r->Ok_0;
            &&& l.log_root@ == log_root@
            &&& l.encoded_cwd@ == encoded_cwd@
            &&& l.session_count == files@.len()
            &&& l.limit == match limit {
                Some(n) => n,
                None => 0,
            }
            &&& (l.project_cwd matches Some(c) && (c@, l.cwd_source) == project_cwd_of(files@, encoded_cwd@))
            &&& l.sessions@.len() == match limit {
                Some(n) => if n < files@.len() {
                    n as int
                } else {
                    files@.len() as int
                },
                None => files@.len() as int,
            }
            &&& exists|perm: Seq<int>, out: Seq<SessionRowV>|
                lists_files(out, perm, files@) && rows_view(l.sessions@) == limited(out, limit)
        },
{
    if !project_exists {
        return Err(
            ListError::ProjectNotFound { encoded_cwd: encoded_cwd.to_owned(), log_root: log_root.to_owned() },
        );
    }
    let mut rows = sorted_rows(files);
    let ghost all = rows_view(rows@);
    let session_count = rows.len();
    let applied_limit: usize = match limit {
        Some(n) => n,
        None => 0,
    };
    match limit {
        Some(n) => {
            rows.truncate(n);
        },
        None => {},
    }
    assert(rows_view(rows@) =~= limited(all, limit));
    let (project_cwd, cwd_source) = resolve_project_cwd(files, encoded_cwd);
    Ok(
        SessionListing {
            log_root: log_root.to_owned(),
            encoded_cwd: encoded_cwd.to_owned(),
            project_cwd: Some(project_cwd),
            cwd_source,
            session_count,
            limit: applied_limit,
            sessions: rows,
        },
    )
}

} // verus!
