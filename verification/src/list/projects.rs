//! The projects under a log root: one row per project directory, with its
//! session count, its most recent log time and its working directory;
//! the most recently active project first.

use vstd::prelude::*;

use crate::json::JsonValue;
use crate::list::sessions::{instant_lt, is_newest, is_permutation, newest_file, ListError};
use crate::locator::{cwd_resolution, first_cwd, first_cwd_of, lines_view, resolve_cwd, CwdSource};
use crate::text::{lemma_lex_total, lemma_lex_trans, lex_lt, str_lt};

verus! {

/// One project directory.
pub struct ProjectRow {
    pub encoded_cwd: String,
    pub project_cwd: Option<String>,
    pub cwd_source: CwdSource,
    pub session_count: usize,
    /// The modification time of its most recent log file, as seconds and
    /// nanoseconds since the Unix epoch (UTC).
    pub latest_session_at: Option<(i64, u32)>,
}

/// The model of a `ProjectRow`.
pub struct ProjectRowV {
    pub encoded_cwd: Seq<char>,
    pub project_cwd: Option<Seq<char>>,
    pub cwd_source: CwdSource,
    pub session_count: usize,
    pub latest_session_at: Option<(i64, u32)>,
}

impl View for ProjectRow {
    type V = ProjectRowV;

    open spec fn view(&self) -> ProjectRowV {
        ProjectRowV {
            encoded_cwd: self.encoded_cwd@,
            project_cwd: match self.project_cwd {
                Some(c) => Some(c@),
                None => None,
            },
            cwd_source: self.cwd_source,
            session_count: self.session_count,
            latest_session_at: self.latest_session_at,
        }
    }
}

/// The model of a list of project rows.
pub open spec fn project_rows_view(v: Seq<ProjectRow>) -> Seq<ProjectRowV> {
    v.map_values(|r: ProjectRow| r@)
}

/// The projects under a log root.
pub struct ProjectListing {
    pub log_root: String,
    pub projects: Vec<ProjectRow>,
}

/// The row of project directory `encoded`, whose log files were modified
/// at `modified`, and where `newest_lines` are the lines of the most
/// recently modified one (empty where there is none): its working
/// directory is that log's first `cwd`, else the reconstruction.
pub open spec fn project_row_of(
    encoded: Seq<char>,
    modified: Seq<Option<(i64, u32)>>,
    newest_lines: Seq<Option<JsonValue>>,
) -> ProjectRowV {
    let newest = newest_file(modified);
    let (cwd, source) = cwd_resolution(
        match newest {
            Some(_) => first_cwd_of(lines_view(newest_lines)),
            None => None,
        },
        encoded,
    );
    ProjectRowV {
        encoded_cwd: encoded,
        project_cwd: Some(cwd),
        cwd_source: source,
        session_count: modified.len() as usize,
        latest_session_at: match newest {
            Some(k) => modified[k],
            None => None,
        },
    }
}

/// The most recently modified of a project's log files, where any
/// modification time could be read; the first one where several share it.
pub fn newest_log(modified: &Vec<Option<(i64, u32)>>) -> (r: Option<usize>)
    ensures
        match r {
            Some(k) => newest_file(modified@) == Some(k as int),
            None => newest_file(modified@) is None,
        },
{
    let ghost mods = modified@;
    let mut best: Option<(usize, (i64, u32))> = None;
    let mut i: usize = 0;
    while i < modified.len()
        invariant
            0 <= i <= mods.len(),
            mods == modified@,
            match best {
                None => forall|j: int| 0 <= j < i ==> #[trigger] mods[j] is None,
                Some((k, t)) => k < i && mods[k as int] == Some(t) && is_newest(mods.take(i as int), k as int),
            },
        decreases modified.len() - i,
    {
        let ghost before = mods.take(i as int);
        let ghost after = mods.take(i + 1);
        assert(after.drop_last() =~= before);
        match modified[i] {
            Some(m) => {
                let replace = match best {
                    None => true,
                    Some((_, t)) => t.0 < m.0 || (t.0 == m.0 && t.1 < m.1),
                };
                if replace {
                    best = Some((i, m));
                    assert(is_newest(after, i as int)) by {
                        assert forall|j: int| 0 <= j < i + 1 && #[trigger] after[j] is Some implies !instant_lt(
                            after[i as int]->0,
                            after[j]->0,
                        ) by {
                            if j < i {
                                assert(after[j] == before[j]);
                            }
                        }
                        assert forall|j: int| 0 <= j < i && #[trigger] after[j] is Some implies instant_lt(
                            after[j]->0,
                            after[i as int]->0,
                        ) by {
                            assert(after[j] == before[j]);
                        }
                    }
                } else {
                    let ghost k = best->Some_0.0;
                    assert(is_newest(after, k as int)) by {
                        assert forall|j: int| 0 <= j < i + 1 && #[trigger] after[j] is Some implies !instant_lt(
                            after[k as int]->0,
                            after[j]->0,
                        ) by {
                            if j < i {
                                assert(after[j] == before[j]);
                            }
                        }
                        assert forall|j: int| 0 <= j < k && #[trigger] after[j] is Some implies instant_lt(
                            after[j]->0,
                            after[k as int]->0,
                        ) by {
                            assert(after[j] == before[j]);
                        }
                    }
                }
            },
            None => {
                match best {
                    None => {},
                    Some((k, _)) => {
                        assert(is_newest(after, k as int)) by {
                            assert forall|j: int| 0 <= j < i + 1 && #[trigger] after[j] is Some implies !instant_lt(
                                after[k as int]->0,
                                after[j]->0,
                            ) by {
                                assert(after[j] == before[j]);
                            }
                            assert forall|j: int| 0 <= j < k && #[trigger] after[j] is Some implies instant_lt(
                                after[j]->0,
                                after[k as int]->0,
                            ) by {
                                assert(after[j] == before[j]);
                            }
                        }
                    },
                }
            },
        }
        i = i + 1;
    }
    assert(mods.take(mods.len() as int) =~= mods);
    match best {
        Some((k, _)) => {
            proof {
                let c = choose|c: int| is_newest(mods, c);
                if c != k {
                    if c < k {
                        assert(mods[c] is Some);
                    } else {
                        assert(mods[k as int] is Some);
                    }
                }
            }
            Some(k)
        },
        None => {
            assert(!exists|k: int| is_newest(mods, k));
            None
        },
    }
}

/// The row of one project directory; `newest_lines` are the lines of its
/// most recently modified log (as `newest_log` picks it), each trimmed and
/// parsed as JSON.
pub fn build_project_row(
    encoded_cwd: &str,
    modified: &Vec<Option<(i64, u32)>>,
    newest_lines: &Vec<Option<JsonValue>>,
) -> (r: ProjectRow)
    ensures
        r@ == project_row_of(encoded_cwd@, modified@, newest_lines@),
{
    let newest = newest_log(modified);
    let first = match newest {
        Some(_) => first_cwd(newest_lines),
        None => None,
    };
    let (cwd, source) = resolve_cwd(first, encoded_cwd);
    ProjectRow {
        encoded_cwd: encoded_cwd.to_owned(),
        project_cwd: Some(cwd),
        cwd_source: source,
        session_count: modified.len(),
        latest_session_at: match newest {
            Some(k) => modified[k],
            None => None,
        },
    }
}

/// Project `a` is listed before project `b`: the more recent latest log
/// first, projects without one last, ties by encoded name.
pub open spec fn project_before(a: ProjectRowV, b: ProjectRowV) -> bool {
    match (a.latest_session_at, b.latest_session_at) {
        (Some(x), Some(y)) => instant_lt(y, x) || (x == y && lex_lt(a.encoded_cwd, b.encoded_cwd)),
        (Some(_), None) => true,
        (None, Some(_)) => false,
        (None, None) => lex_lt(a.encoded_cwd, b.encoded_cwd),
    }
}

/// Projects `a` and `b` take the same place in the order.
pub open spec fn project_same_place(a: ProjectRowV, b: ProjectRowV) -> bool {
    a.latest_session_at == b.latest_session_at && a.encoded_cwd == b.encoded_cwd
}

proof fn lemma_project_trans(a: ProjectRowV, b: ProjectRowV, c: ProjectRowV)
    requires
        project_before(a, b) || project_same_place(a, b),
        project_before(b, c) || project_same_place(b, c),
        project_before(a, b) || project_before(b, c),
    ensures
        project_before(a, c),
{
    if project_before(a, b) && project_before(b, c) {
        if lex_lt(a.encoded_cwd, b.encoded_cwd) && lex_lt(b.encoded_cwd, c.encoded_cwd) {
            lemma_lex_trans(a.encoded_cwd, b.encoded_cwd, c.encoded_cwd);
        }
    }
}

proof fn lemma_project_total(a: ProjectRowV, b: ProjectRowV)
    ensures
        project_before(a, b) || project_before(b, a) || project_same_place(a, b),
{
    if a.encoded_cwd != b.encoded_cwd {
        lemma_lex_total(a.encoded_cwd, b.encoded_cwd);
    }
}

/// Rows `out` are rows `rows` taken in the order `perm`, in listing order;
/// rows with the same place keep their order.
pub open spec fn lists_projects(out: Seq<ProjectRowV>, perm: Seq<int>, rows: Seq<ProjectRowV>) -> bool {
    &&& out.len() == rows.len()
    &&& is_permutation(perm, rows.len() as int)
    &&& forall|k: int| 0 <= k < out.len() ==> #[trigger] out[k] == rows[perm[k]]
    &&& forall|a: int, b: int|
        0 <= a < b < out.len() ==> project_before(out[a], out[b]) || (project_same_place(
            out[a],
            out[b],
        ) && perm[a] < perm[b])
}

fn project_goes_before(a: &ProjectRow, b: &ProjectRow) -> (r: bool)
    ensures
        r == project_before(a@, b@),
{
    match (a.latest_session_at, b.latest_session_at) {
        (Some(x), Some(y)) => y.0 < x.0 || (y.0 == x.0 && y.1 < x.1) || (x.0 == y.0 && x.1 == y.1
            && str_lt(&a.encoded_cwd, &b.encoded_cwd)),
        (Some(_), None) => true,
        (None, Some(_)) => false,
        (None, None) => str_lt(&a.encoded_cwd, &b.encoded_cwd),
    }
}

/// Lists the projects under a log root, most recently active first
/// (projects without a readable log time last, ties by encoded name); an
/// error where the log root does not exist.
#[verifier::rlimit(40)]
pub fn list_projects(log_root: &str, log_root_exists: bool, rows: Vec<ProjectRow>) -> (r: Result<
    ProjectListing,
    ListError,
>)
    ensures
        !log_root_exists ==> (r matches Err(ListError::LogRootMissing { log_root: l }) && l@
            == log_root@),
        log_root_exists ==> r is Ok && r->Ok_0.log_root@ == log_root@ && exists|perm: Seq<int>|
            lists_projects(project_rows_view(r->Ok_0.projects@), perm, project_rows_view(rows@)),
{
    if !log_root_exists {
        return Err(ListError::LogRootMissing { log_root: log_root.to_owned() });
    }
    let ghost input = project_rows_view(rows@);
    let mut rest = rows;
    let mut out: Vec<ProjectRow> = Vec::new();
    let ghost mut perm: Seq<int> = Seq::empty();
    let mut i: usize = 0;
    let n = rest.len();
    while i < n
        invariant
            0 <= i <= n,
            n == input.len(),
            rest@.len() == n - i,
            forall|k: int| 0 <= k < n - i ==> #[trigger] rest@[k]@ == input[i + k],
            out@.len() == i,
            perm.len() == i,
            input == project_rows_view(rows@),
            forall|k: int| 0 <= k < i ==> 0 <= #[trigger] perm[k] < i,
            forall|a: int, b: int| 0 <= a < i && 0 <= b < i && a != b ==> perm[a] != perm[b],
            forall|k: int| 0 <= k < i ==> #[trigger] out@[k]@ == input[perm[k]],
            forall|a: int, b: int|
                0 <= a < b < i ==> project_before(out@[a]@, out@[b]@) || (project_same_place(
                    out@[a]@,
                    out@[b]@,
                ) && perm[a] < perm[b]),
        decreases n - i,
    {
        assert(rest@[0]@ == input[i as int]);
        let ghost rest0 = rest@;
        let row = rest.remove(0);
        assert forall|k: int| 0 <= k < n - i - 1 implies #[trigger] rest@[k]@ == input[i + 1 + k] by {
            assert(rest@[k] == rest0[k + 1]);
        }
        let mut p: usize = 0;
        while p < out.len() && !project_goes_before(&row, &out[p])
            invariant
                0 <= p <= out@.len(),
                out@.len() == i,
                forall|j: int| 0 <= j < p ==> !project_before(row@, #[trigger] out@[j]@),
            decreases out.len() - p,
        {
            p = p + 1;
        }
        let ghost old_out = out@;
        let ghost old_perm = perm;
        let ghost rv = row@;
        proof {
            assert forall|j: int| 0 <= j < p implies project_before(#[trigger] old_out[j]@, rv)
                || project_same_place(old_out[j]@, rv) by {
                lemma_project_total(old_out[j]@, rv);
            }
            if p < i {
                assert forall|j: int| p <= j < i implies project_before(rv, #[trigger] old_out[j]@) by {
                    if j > p {
                        lemma_project_trans(rv, old_out[p as int]@, old_out[j]@);
                    }
                }
            }
        }
        out.insert(p, row);
        proof {
            perm = perm.insert(p as int, i as int);
            assert forall|k: int| 0 <= k < i + 1 implies 0 <= #[trigger] perm[k] < i + 1 by {
                if k > p {
                    assert(perm[k] == old_perm[k - 1]);
                }
            }
            assert forall|a: int, b: int| 0 <= a < i + 1 && 0 <= b < i + 1 && a != b implies perm[a]
                != perm[b] by {
                if a != p && b != p {
                    let a0 = if a < p { a } else { a - 1 };
                    let b0 = if b < p { b } else { b - 1 };
                    assert(perm[a] == old_perm[a0] && perm[b] == old_perm[b0]);
                } else if a == p {
                    let b0 = if b < p { b } else { b - 1 };
                    assert(perm[b] == old_perm[b0]);
                } else {
                    let a0 = if a < p { a } else { a - 1 };
                    assert(perm[a] == old_perm[a0]);
                }
            }
            assert forall|k: int| 0 <= k < i + 1 implies #[trigger] out@[k]@ == input[perm[k]] by {
                if k < p {
                    assert(out@[k] == old_out[k] && perm[k] == old_perm[k]);
                } else if k > p {
                    assert(out@[k] == old_out[k - 1] && perm[k] == old_perm[k - 1]);
                }
            }
            assert forall|a: int, b: int| 0 <= a < b < i + 1 implies project_before(out@[a]@, out@[b]@)
                || (project_same_place(out@[a]@, out@[b]@) && perm[a] < perm[b]) by {
                let a0 = if a < p { a } else { a - 1 };
                let b0 = if b < p { b } else { b - 1 };
                if a != p && b != p {
                    assert(out@[a] == old_out[a0] && out@[b] == old_out[b0]);
                    assert(perm[a] == old_perm[a0] && perm[b] == old_perm[b0]);
                } else if a == p {
                    assert(out@[b] == old_out[b0]);
                    assert(project_before(rv, old_out[b0]@));
                } else {
                    assert(out@[a] == old_out[a0]);
                    assert(perm[a] == old_perm[a0]);
                    assert(project_before(old_out[a0]@, rv) || project_same_place(old_out[a0]@, rv));
                }
            }
        }
        i = i + 1;
    }
    assert(lists_projects(project_rows_view(out@), perm, input));
    assert(input == project_rows_view(rows@));
    let listing = ProjectListing { log_root: log_root.to_owned(), projects: out };
    assert(project_rows_view(listing.projects@) == project_rows_view(out@));
    assert(exists|pm: Seq<int>| lists_projects(project_rows_view(listing.projects@), pm, project_rows_view(rows@)));
    Ok(listing)
}

} // verus!
