//! Locating a session: choosing the one log file named by a session id, and
//! resolving a project's working directory, either the ground-truth `cwd` of
//! the first record that carries one or, failing that, the lossy
//! reconstruction from the encoded directory name.

use vstd::prelude::*;

use crate::json::{join_with, str_member, str_member_of, JsonV, JsonValue};
use crate::parser::record::ojson;
use crate::text::push_char;

verus! {

/// Where a project's working directory came from.
#[derive(Debug, Clone, Copy, PartialEq, Eq, Structural)]
pub enum CwdSource {
    FirstRecord,
    ReconstructedFromEncodedCwd,
}

/// A located session log.
pub struct ResolvedSession {
    pub jsonl_path: String,
    pub subagents_dir: String,
    pub project_cwd_encoded: String,
    pub project_cwd: String,
    pub cwd_source: CwdSource,
}

/// The path that an encoded-cwd token stands for: every `-` read as `/`.
pub open spec fn reconstructed(encoded: Seq<char>) -> Seq<char> {
    encoded.map_values(|c: char| if c == '-' { '/' } else { c })
}

/// Reconstructs a working directory from its encoded form (lossy: a `-`
/// inside a directory name comes back as a separator).
pub fn reconstruct_cwd_from_encoded(encoded: &str) -> (r: String)
    ensures
        r@ == reconstructed(encoded@),
{
    let mut r = String::new();
    for c in it: encoded.chars()
        invariant
            it.seq() == encoded@,
            r@ == reconstructed(it.seq().take(it.index() as int)),
    {
        let ghost before = r@;
        if c == '-' {
            push_char(&mut r, '/');
        } else {
            push_char(&mut r, c);
        }
        proof {
            assert(reconstructed(it.seq().take(it.index() + 1)) =~= before.push(
                if c == '-' { '/' } else { c },
            ));
        }
    }
    assert(encoded@.take(encoded@.len() as int) =~= encoded@);
    r
}

/// The model of the parsed lines of a log: `None` for a line that is not
/// JSON (or could not be read).
pub open spec fn lines_view(v: Seq<Option<JsonValue>>) -> Seq<Option<JsonV>> {
    v.map_values(|o: Option<JsonValue>| ojson(o))
}

/// The `cwd` string of the first line that carries one.
pub open spec fn first_cwd_of(lines: Seq<Option<JsonV>>) -> Option<Seq<char>>
    decreases lines.len(),
{
    if lines.len() == 0 {
        None
    } else {
        match lines[0] {
            Some(v) => match str_member(v, "cwd"@) {
                Some(c) => Some(c),
                None => first_cwd_of(lines.drop_first()),
            },
            None => first_cwd_of(lines.drop_first()),
        }
    }
}

/// Scans a log's lines for the first one with a top-level `cwd` string.
/// Sessions often open with a `file-history-snapshot` record that has none,
/// so the scan goes on past the first line.
pub fn first_cwd(lines: &Vec<Option<JsonValue>>) -> (r: Option<String>)
    ensures
        match r {
            Some(c) => first_cwd_of(lines_view(lines@)) == Some(c@),
            None => first_cwd_of(lines_view(lines@)) is None,
        },
{
    let ghost lv = lines_view(lines@);
    assert(lv.skip(0) =~= lv);
    let mut i: usize = 0;
    while i < lines.len()
        invariant
            0 <= i <= lines@.len(),
            lv == lines_view(lines@),
            first_cwd_of(lv) == first_cwd_of(lv.skip(i as int)),
        decreases lines.len() - i,
    {
        assert(lv.skip(i as int)[0] == ojson(lines@[i as int]));
        assert(lv.skip(i as int).drop_first() =~= lv.skip(i + 1));
        if let Some(v) = &lines[i] {
            if let Some(c) = str_member_of(v, "cwd") {
                return Some(c);
            }
        }
        i = i + 1;
    }
    None
}

/// The working directory of a project: the ground-truth `cwd` where one was
/// found, else the reconstruction from the encoded name.
pub open spec fn cwd_resolution(first: Option<Seq<char>>, encoded: Seq<char>) -> (Seq<char>, CwdSource) {
    match first {
        Some(c) => (c, CwdSource::FirstRecord),
        None => (reconstructed(encoded), CwdSource::ReconstructedFromEncodedCwd),
    }
}

/// Resolves a project's working directory.
pub fn resolve_cwd(first: Option<String>, encoded: &str) -> (r: (String, CwdSource))
    ensures
        (r.0@, r.1) == cwd_resolution(
            match first {
                Some(c) => Some(c@),
                None => None,
            },
            encoded@,
        ),
{
    match first {
        Some(c) => (c, CwdSource::FirstRecord),
        None => (reconstruct_cwd_from_encoded(encoded), CwdSource::ReconstructedFromEncodedCwd),
    }
}

/// Why a session could not be located.
pub enum LocateError {
    LogRootMissing { log_root: String },
    NotFound { session_id: String, log_root: String },
    Ambiguous { session_id: String, matches: Vec<String> },
}

/// The candidate log files that were found for a session id.
pub struct SessionMatch {
    /// The path of `<project>/<session_id>.jsonl`.
    pub jsonl_path: String,
    /// The name of the project directory (the encoded cwd).
    pub project_dir_name: String,
    /// `<project>/<session_id>/subagents`.
    pub subagents_dir: String,
    /// The parsed lines of the log, with trailing whitespace trimmed.
    pub cwd_lines: Vec<Option<JsonValue>>,
}

/// Locates a session among the candidate log files found for its id: an
/// error where the log root is missing, where no candidate was found, or
/// where more than one was (the caller must pass a project to
/// disambiguate); else the one candidate, with its working directory
/// resolved.
pub fn resolve(log_root_exists: bool, log_root: &str, session_id: &str, matches: Vec<SessionMatch>) -> (r:
    Result<ResolvedSession, LocateError>)
    ensures
        !log_root_exists ==> r is Err && r->Err_0 is LogRootMissing
            && r->Err_0->LogRootMissing_log_root@ == log_root@,
        log_root_exists && matches@.len() == 0 ==> r is Err && r->Err_0 is NotFound
            && r->Err_0->NotFound_session_id@ == session_id@
            && r->Err_0->NotFound_log_root@ == log_root@,
        log_root_exists && matches@.len() > 1 ==> r is Err && r->Err_0 is Ambiguous
            && r->Err_0->Ambiguous_session_id@ == session_id@
            && r->Err_0->matches@.len() == matches@.len()
            && forall|k: int| 0 <= k < matches@.len() ==> (#[trigger] r->Err_0->matches@[k])@ == matches@[k].jsonl_path@,
        log_root_exists && matches@.len() == 1 ==> r is Ok && {
            let m = matches@[0];
            let rs = r->Ok_0;
            &&& rs.jsonl_path@ == m.jsonl_path@
            &&& rs.subagents_dir@ == m.subagents_dir@
            &&& rs.project_cwd_encoded@ == m.project_dir_name@
            &&& (rs.project_cwd@, rs.cwd_source) == cwd_resolution(
                first_cwd_of(lines_view(m.cwd_lines@)),
                m.project_dir_name@,
            )
        },
{
    if !log_root_exists {
        return Err(LocateError::LogRootMissing { log_root: log_root.to_owned() });
    }
    if matches.len() == 0 {
        return Err(
            LocateError::NotFound { session_id: session_id.to_owned(), log_root: log_root.to_owned() },
        );
    }
    if matches.len() > 1 {
        let mut paths: Vec<String> = Vec::new();
        let mut i: usize = 0;
        while i < matches.len()
            invariant
                0 <= i <= matches@.len(),
                paths@.len() == i,
                forall|k: int| 0 <= k < i ==> (#[trigger] paths@[k])@ == matches@[k].jsonl_path@,
            decreases matches.len() - i,
        {
            paths.push(matches[i].jsonl_path.clone());
            i = i + 1;
        }
        return Err(LocateError::Ambiguous { session_id: session_id.to_owned(), matches: paths });
    }
    let m = &matches[0];
    let first = first_cwd(&m.cwd_lines);
    let (project_cwd, cwd_source) = resolve_cwd(first, m.project_dir_name.as_str());
    Ok(
        ResolvedSession {
            jsonl_path: m.jsonl_path.clone(),
            subagents_dir: m.subagents_dir.clone(),
            project_cwd_encoded: m.project_dir_name.clone(),
            project_cwd,
            cwd_source,
        },
    )
}

/// The message a locate error is reported with.
pub fn locate_error_message(e: &LocateError) -> (r: String)
    ensures
        match e {
            LocateError::LogRootMissing { log_root } => r@ == "log root "@ + log_root@ + " does not exist"@,
            LocateError::NotFound { session_id, log_root } => r@ == "session id "@ + session_id@
                + " not found under "@ + log_root@,
            LocateError::Ambiguous { session_id, matches } => r@ == "session id "@ + session_id@
                + " matches multiple projects ("@ + join_with(
                matches@.map_values(|p: String| p@),
                ", "@,
            ) + "); pass --project to disambiguate"@,
        },
{
    let mut m = String::new();
    match e {
        LocateError::LogRootMissing { log_root } => {
            m.append("log root ");
            m.append(log_root.as_str());
            m.append(" does not exist");
        },
        LocateError::NotFound { session_id, log_root } => {
            m.append("session id ");
            m.append(session_id.as_str());
            m.append(" not found under ");
            m.append(log_root.as_str());
        },
        LocateError::Ambiguous { session_id, matches } => {
            m.append("session id ");
            m.append(session_id.as_str());
            m.append(" matches multiple projects (");
            let ghost head = m@;
            let ghost ps = matches@.map_values(|p: String| p@);
            let mut i: usize = 0;
            while i < matches.len()
                invariant
                    0 <= i <= matches@.len(),
                    ps == matches@.map_values(|p: String| p@),
                    m@ == head + join_with(ps.take(i as int), ", "@),
                decreases matches.len() - i,
            {
                let ghost before = m@;
                if i > 0 {
                    m.append(", ");
                }
                m.append(matches[i].as_str());
                proof {
                    assert(ps.take(i + 1).drop_last() =~= ps.take(i as int));
                    if i == 0 {
                        assert(join_with(ps.take(1), ", "@) == ps[0]);
                    }
                }
                assert(m@ =~= head + join_with(ps.take(i + 1), ", "@));
                i = i + 1;
            }
            assert(ps.take(ps.len() as int) =~= ps);
            m.append("); pass --project to disambiguate");
        },
    }
    m
}

} // verus!
