//! Skill invocations. Each launching `Skill` tool_use yields one
//! `SkillInvocation`; its window is the contiguous run of later records whose
//! `attributionSkill` names the skill, and the run closes at the first record
//! after it that does not.

use vstd::prelude::*;

use crate::extract::{
    bump, clamp_usize, content_blocks, content_string, count_error_results, count_tool_uses,
    keyed_view, lookup_last, lookup_last_of, record_blocks, value_to_content_string,
};
use crate::json::{str_member, str_member_of, JsonV};
use crate::parser::record::{blocks_view, ostr, BlockV, ContentBlock, JsonlRecord};

verus! {

/// One skill invocation.
pub struct SkillInvocation {
    pub skill_name: String,
    pub invocation_uuid: String,
    pub args: Option<String>,
    pub started_at: String,
    pub ended_at: Option<String>,
    pub inner_tool_uses: usize,
    pub inner_errors: usize,
    pub launch_is_error: bool,
    pub launch_content: String,
}

/// The model of a `SkillInvocation`.
pub struct SkillInvocationV {
    pub skill_name: Seq<char>,
    pub invocation_uuid: Seq<char>,
    pub args: Option<Seq<char>>,
    pub started_at: Seq<char>,
    pub ended_at: Option<Seq<char>>,
    pub inner_tool_uses: usize,
    pub inner_errors: usize,
    pub launch_is_error: bool,
    pub launch_content: Seq<char>,
}

impl View for SkillInvocation {
    type V = SkillInvocationV;

    open spec fn view(&self) -> SkillInvocationV {
        SkillInvocationV {
            skill_name: self.skill_name@,
            invocation_uuid: self.invocation_uuid@,
            args: ostr(self.args),
            started_at: self.started_at@,
            ended_at: ostr(self.ended_at),
            inner_tool_uses: self.inner_tool_uses,
            inner_errors: self.inner_errors,
            launch_is_error: self.launch_is_error,
            launch_content: self.launch_content@,
        }
    }
}

/// The model of a list of skill invocations.
pub open spec fn skills_view(v: Seq<SkillInvocation>) -> Seq<SkillInvocationV> {
    v.map_values(|s: SkillInvocation| s@)
}

/// `(tool_use_id, (is_error, content as text))` of every `tool_result` block.
pub open spec fn result_pairs_of_blocks(bs: Seq<BlockV>) -> Seq<(Seq<char>, (bool, Seq<char>))>
    decreases bs.len(),
{
    if bs.len() == 0 {
        Seq::empty()
    } else {
        let rest = result_pairs_of_blocks(bs.drop_last());
        match bs.last() {
            BlockV::ToolResult { tool_use_id, content, is_error, .. } => rest.push(
                (tool_use_id, (is_error, content_string(content))),
            ),
            _ => rest,
        }
    }
}

/// The same over every record, in order.
pub open spec fn result_pairs(recs: Seq<JsonlRecord>) -> Seq<(Seq<char>, (bool, Seq<char>))>
    decreases recs.len(),
{
    if recs.len() == 0 {
        Seq::empty()
    } else {
        result_pairs(recs.drop_last()) + result_pairs_of_blocks(record_blocks(recs.last()))
    }
}

/// Whether a record is attributed to skill `name`.
pub open spec fn attributed(r: JsonlRecord, name: Seq<char>) -> bool {
    ostr(r.attribution_skill) == Some(name)
}

/// The first record at or after `j` attributed to `name`.
pub open spec fn first_attributed(recs: Seq<JsonlRecord>, j: int, name: Seq<char>) -> Option<int>
    decreases recs.len() - j,
{
    if j < 0 || j >= recs.len() {
        None
    } else if attributed(recs[j], name) {
        Some(j)
    } else {
        first_attributed(recs, j + 1, name)
    }
}

/// The last record of the contiguous run of records attributed to `name`
/// that starts at `j`.
pub open spec fn run_end(recs: Seq<JsonlRecord>, j: int, name: Seq<char>) -> int
    decreases recs.len() - j,
{
    if 0 <= j && j + 1 < recs.len() && attributed(recs[j + 1], name) {
        run_end(recs, j + 1, name)
    } else {
        j
    }
}

/// The last `tool_result` block among `bs` answering the call `id`: its
/// `is_error` flag and its content.
pub open spec fn last_result_in(bs: Seq<BlockV>, id: Seq<char>) -> Option<(bool, JsonV)>
    decreases bs.len(),
{
    if bs.len() == 0 {
        None
    } else {
        match bs.last() {
            BlockV::ToolResult { tool_use_id, content, is_error, .. } => if tool_use_id == id {
                Some((is_error, content))
            } else {
                last_result_in(bs.drop_last(), id)
            },
            _ => last_result_in(bs.drop_last(), id),
        }
    }
}

/// The last `tool_result` block of the records answering the call `id`.
pub open spec fn last_result(recs: Seq<JsonlRecord>, id: Seq<char>) -> Option<(bool, JsonV)>
    decreases recs.len(),
{
    if recs.len() == 0 {
        None
    } else {
        match last_result_in(record_blocks(recs.last()), id) {
            Some(x) => Some(x),
            None => last_result(recs.drop_last(), id),
        }
    }
}

/// The ids of the `Skill` tool_use blocks among `bs`, in order.
pub open spec fn skill_ids_in(bs: Seq<BlockV>) -> Seq<Seq<char>>
    decreases bs.len(),
{
    if bs.len() == 0 {
        Seq::empty()
    } else {
        let rest = skill_ids_in(bs.drop_last());
        match bs.last() {
            BlockV::ToolUse { id, name, .. } => if name == "Skill"@ {
                rest.push(id)
            } else {
                rest
            },
            _ => rest,
        }
    }
}

/// The ids of the `Skill` tool_use blocks of the first `n` records, in
/// order.
pub open spec fn skill_ids(recs: Seq<JsonlRecord>, n: int) -> Seq<Seq<char>>
    decreases n,
{
    if n <= 0 {
        Seq::empty()
    } else {
        skill_ids(recs, n - 1) + skill_ids_in(record_blocks(recs[n - 1]))
    }
}

proof fn lemma_lookup_last_concat<V>(p: Seq<(Seq<char>, V)>, q: Seq<(Seq<char>, V)>, id: Seq<char>)
    ensures
        lookup_last(p + q, id) == match lookup_last(q, id) {
            Some(v) => Some(v),
            None => lookup_last(p, id),
        },
    decreases q.len(),
{
    if q.len() == 0 {
        assert(p + q =~= p);
    } else {
        assert((p + q).drop_last() =~= p + q.drop_last());
        assert((p + q).last() == q.last());
        lemma_lookup_last_concat(p, q.drop_last(), id);
    }
}

proof fn lemma_block_results(bs: Seq<BlockV>, id: Seq<char>)
    ensures
        lookup_last(result_pairs_of_blocks(bs), id) == match last_result_in(bs, id) {
            Some((e, c)) => Some((e, content_string(c))),
            None => None,
        },
    decreases bs.len(),
{
    if bs.len() > 0 {
        lemma_block_results(bs.drop_last(), id);
        let rest = result_pairs_of_blocks(bs.drop_last());
        match bs.last() {
            BlockV::ToolResult { tool_use_id, content, is_error, .. } => {
                let x = (tool_use_id, (is_error, content_string(content)));
                assert(rest.push(x).drop_last() =~= rest);
                assert(rest.push(x).last() == x);
            },
            _ => {},
        }
    }
}

proof fn lemma_record_results(recs: Seq<JsonlRecord>, id: Seq<char>)
    ensures
        lookup_last(result_pairs(recs), id) == match last_result(recs, id) {
            Some((e, c)) => Some((e, content_string(c))),
            None => None,
        },
    decreases recs.len(),
{
    if recs.len() > 0 {
        lemma_record_results(recs.drop_last(), id);
        lemma_block_results(record_blocks(recs.last()), id);
        lemma_lookup_last_concat(
            result_pairs(recs.drop_last()),
            result_pairs_of_blocks(record_blocks(recs.last())),
            id,
        );
    }
}

/// An invocation's launch fields as the result of call `id` gives them.
pub open spec fn launch_matches(
    results: Seq<(Seq<char>, (bool, Seq<char>))>,
    id: Seq<char>,
    s: SkillInvocationV,
) -> bool {
    match lookup_last(results, id) {
        Some(p) => s.launch_is_error == p.0 && s.launch_content == p.1,
        None => !s.launch_is_error && s.launch_content == Seq::<char>::empty(),
    }
}

proof fn lemma_skills_blocks_launch(
    results: Seq<(Seq<char>, (bool, Seq<char>))>,
    recs: Seq<JsonlRecord>,
    i: int,
    bs: Seq<BlockV>,
)
    ensures
        skills_of_blocks(results, recs, i, bs).len() == skill_ids_in(bs).len(),
        forall|k: int|
            0 <= k < skill_ids_in(bs).len() ==> launch_matches(
                results,
                #[trigger] skill_ids_in(bs)[k],
                skills_of_blocks(results, recs, i, bs)[k],
            ),
    decreases bs.len(),
{
    if bs.len() > 0 {
        lemma_skills_blocks_launch(results, recs, i, bs.drop_last());
    }
}

proof fn lemma_skills_upto_launch(
    results: Seq<(Seq<char>, (bool, Seq<char>))>,
    recs: Seq<JsonlRecord>,
    n: int,
)
    ensures
        skills_upto(results, recs, n).len() == skill_ids(recs, n).len(),
        forall|k: int|
            0 <= k < skill_ids(recs, n).len() ==> launch_matches(
                results,
                #[trigger] skill_ids(recs, n)[k],
                skills_upto(results, recs, n)[k],
            ),
    decreases n,
{
    if n > 0 {
        lemma_skills_upto_launch(results, recs, n - 1);
        lemma_skills_blocks_launch(results, recs, n - 1, record_blocks(recs[n - 1]));
        let a = skills_upto(results, recs, n - 1);
        let b = skills_of_blocks(results, recs, n - 1, record_blocks(recs[n - 1]));
        let ia = skill_ids(recs, n - 1);
        let ib = skill_ids_in(record_blocks(recs[n - 1]));
        assert forall|k: int| 0 <= k < (ia + ib).len() implies launch_matches(
            results,
            #[trigger] (ia + ib)[k],
            (a + b)[k],
        ) by {
            if k < ia.len() {
                assert(launch_matches(results, ia[k], a[k]));
            } else {
                assert(launch_matches(results, ib[k - ia.len()], b[k - ia.len()]));
            }
        }
    }
}

/// One invocation per `Skill` tool_use, in order, and each reports how its
/// launch went as the last `tool_result` answering that tool_use says: the
/// launch failed exactly when that result has `is_error` set, and its
/// content is that result's content as text; with no result the launch is
/// not an error and its content is empty.
pub proof fn law_skill_launch_result(recs: Seq<JsonlRecord>)
    ensures
        session_skills(recs).len() == skill_ids(recs, recs.len() as int).len(),
        forall|k: int|
            0 <= k < session_skills(recs).len() ==> match last_result(
                recs,
                #[trigger] skill_ids(recs, recs.len() as int)[k],
            ) {
                Some((e, c)) => session_skills(recs)[k].launch_is_error == e
                    && session_skills(recs)[k].launch_content == content_string(c),
                None => !session_skills(recs)[k].launch_is_error && session_skills(recs)[k].launch_content
                    == Seq::<char>::empty(),
            },
{
    let ids = skill_ids(recs, recs.len() as int);
    lemma_skills_upto_launch(result_pairs(recs), recs, recs.len() as int);
    assert forall|k: int| 0 <= k < session_skills(recs).len() implies match last_result(
        recs,
        #[trigger] ids[k],
    ) {
        Some((e, c)) => session_skills(recs)[k].launch_is_error == e
            && session_skills(recs)[k].launch_content == content_string(c),
        None => !session_skills(recs)[k].launch_is_error && session_skills(recs)[k].launch_content
            == Seq::<char>::empty(),
    } by {
        lemma_record_results(recs, ids[k]);
        assert(launch_matches(result_pairs(recs), ids[k], session_skills(recs)[k]));
    }
}

/// Where the first record at or after `j` attributed to `name` is.
proof fn lemma_first_attributed(recs: Seq<JsonlRecord>, j: int, name: Seq<char>)
    requires
        0 <= j,
    ensures
        match first_attributed(recs, j, name) {
            Some(s) => j <= s < recs.len() && attributed(recs[s], name) && forall|k: int|
                j <= k < s ==> !attributed(#[trigger] recs[k], name),
            None => forall|k: int| j <= k < recs.len() ==> !attributed(#[trigger] recs[k], name),
        },
    decreases recs.len() - j,
{
    if j < recs.len() && !attributed(recs[j], name) {
        lemma_first_attributed(recs, j + 1, name);
    }
}

/// Where the run of attributed records starting at `j` ends.
proof fn lemma_run_end(recs: Seq<JsonlRecord>, j: int, name: Seq<char>)
    requires
        0 <= j < recs.len(),
        attributed(recs[j], name),
    ensures
        j <= run_end(recs, j, name) < recs.len(),
        forall|k: int| j <= k <= run_end(recs, j, name) ==> attributed(#[trigger] recs[k], name),
        run_end(recs, j, name) + 1 == recs.len() || !attributed(recs[run_end(recs, j, name) + 1], name),
    decreases recs.len() - j,
{
    if j + 1 < recs.len() && attributed(recs[j + 1], name) {
        lemma_run_end(recs, j + 1, name);
    }
}

/// A skill's window is the first unbroken run of records attributed to it
/// after the record that launched it: the window opens at the first
/// attributed record after the launch (none where there is none), every
/// record up to the window's end is attributed, and the record after the
/// end (where there is one) is not. The launch record itself is never in
/// the window.
pub proof fn law_skill_window(recs: Seq<JsonlRecord>, launch: int, name: Seq<char>)
    requires
        0 <= launch < recs.len(),
    ensures
        match first_attributed(recs, launch + 1, name) {
            Some(s) => {
                &&& launch < s < recs.len()
                &&& forall|k: int| launch < k < s ==> !attributed(#[trigger] recs[k], name)
                &&& s <= run_end(recs, s, name) < recs.len()
                &&& forall|k: int| s <= k <= run_end(recs, s, name) ==> attributed(#[trigger] recs[k], name)
                &&& (run_end(recs, s, name) + 1 == recs.len() || !attributed(
                    recs[run_end(recs, s, name) + 1],
                    name,
                ))
            },
            None => forall|k: int| launch < k < recs.len() ==> !attributed(#[trigger] recs[k], name),
        },
{
    lemma_first_attributed(recs, launch + 1, name);
    if let Some(s) = first_attributed(recs, launch + 1, name) {
        lemma_run_end(recs, s, name);
    }
}

/// The `tool_use` blocks of the records `lo..hi`.
pub open spec fn uses_in_range(recs: Seq<JsonlRecord>, lo: int, hi: int) -> nat
    decreases hi - lo,
{
    if hi <= lo {
        0
    } else {
        uses_in_range(recs, lo, hi - 1) + count_tool_uses(record_blocks(recs[hi - 1]))
    }
}

/// The failed `tool_result` blocks of the records `lo..hi`.
pub open spec fn errors_in_range(recs: Seq<JsonlRecord>, lo: int, hi: int) -> nat
    decreases hi - lo,
{
    if hi <= lo {
        0
    } else {
        errors_in_range(recs, lo, hi - 1) + count_error_results(record_blocks(recs[hi - 1]))
    }
}

/// The invocation launched by the `Skill` tool_use `id` with `input`, found
/// in record `i`.
pub open spec fn skill_of(
    results: Seq<(Seq<char>, (bool, Seq<char>))>,
    recs: Seq<JsonlRecord>,
    i: int,
    id: Seq<char>,
    input: JsonV,
) -> SkillInvocationV {
    let name = match str_member(input, "skill"@) {
        Some(n) => n,
        None => Seq::empty(),
    };
    let launch = lookup_last(results, id);
    let (started_at, ended_at, uses, errs) = match first_attributed(recs, i + 1, name) {
        Some(s) => {
            let e = run_end(recs, s, name);
            (
                match ostr(recs[s].timestamp) {
                    Some(t) => t,
                    None => Seq::empty(),
                },
                ostr(recs[e].timestamp),
                clamp_usize(uses_in_range(recs, s, e + 1)),
                clamp_usize(errors_in_range(recs, s, e + 1)),
            )
        },
        None => (Seq::empty(), None, 0usize, 0usize),
    };
    SkillInvocationV {
        skill_name: name,
        invocation_uuid: match ostr(recs[i].uuid) {
            Some(u) => u,
            None => Seq::empty(),
        },
        args: str_member(input, "args"@),
        started_at,
        ended_at,
        inner_tool_uses: uses,
        inner_errors: errs,
        launch_is_error: match launch {
            Some(l) => l.0,
            None => false,
        },
        launch_content: match launch {
            Some(l) => l.1,
            None => Seq::empty(),
        },
    }
}

/// The invocations launched from the blocks `bs` of record `i`.
pub open spec fn skills_of_blocks(
    results: Seq<(Seq<char>, (bool, Seq<char>))>,
    recs: Seq<JsonlRecord>,
    i: int,
    bs: Seq<BlockV>,
) -> Seq<SkillInvocationV>
    decreases bs.len(),
{
    if bs.len() == 0 {
        Seq::empty()
    } else {
        let rest = skills_of_blocks(results, recs, i, bs.drop_last());
        match bs.last() {
            BlockV::ToolUse { id, name, input, .. } => if name == "Skill"@ {
                rest.push(skill_of(results, recs, i, id, input))
            } else {
                rest
            },
            _ => rest,
        }
    }
}

/// The invocations launched from the first `n` records.
pub open spec fn skills_upto(
    results: Seq<(Seq<char>, (bool, Seq<char>))>,
    recs: Seq<JsonlRecord>,
    n: int,
) -> Seq<SkillInvocationV>
    decreases n,
{
    if n <= 0 {
        Seq::empty()
    } else {
        skills_upto(results, recs, n - 1) + skills_of_blocks(
            results,
            recs,
            n - 1,
            record_blocks(recs[n - 1]),
        )
    }
}

/// Every skill invocation of a session, in launch order.
pub open spec fn session_skills(recs: Seq<JsonlRecord>) -> Seq<SkillInvocationV> {
    skills_upto(result_pairs(recs), recs, recs.len() as int)
}

/// The `tool_use` blocks named `Skill` among some blocks.
pub open spec fn skill_launches_in(bs: Seq<BlockV>) -> nat
    decreases bs.len(),
{
    if bs.len() == 0 {
        0
    } else {
        skill_launches_in(bs.drop_last()) + if bs.last() matches BlockV::ToolUse { name, .. }
            && name == "Skill"@ {
            1nat
        } else {
            0nat
        }
    }
}

/// The `tool_use` blocks named `Skill` of the first `n` records.
pub open spec fn skill_launches(recs: Seq<JsonlRecord>, n: int) -> nat
    decreases n,
{
    if n <= 0 {
        0
    } else {
        skill_launches(recs, n - 1) + skill_launches_in(record_blocks(recs[n - 1]))
    }
}

proof fn lemma_skills_of_blocks_count(
    results: Seq<(Seq<char>, (bool, Seq<char>))>,
    recs: Seq<JsonlRecord>,
    i: int,
    bs: Seq<BlockV>,
)
    ensures
        skills_of_blocks(results, recs, i, bs).len() == skill_launches_in(bs),
    decreases bs.len(),
{
    if bs.len() > 0 {
        lemma_skills_of_blocks_count(results, recs, i, bs.drop_last());
    }
}

proof fn lemma_skills_upto_count(results: Seq<(Seq<char>, (bool, Seq<char>))>, recs: Seq<JsonlRecord>, n: int)
    ensures
        skills_upto(results, recs, n).len() == skill_launches(recs, n),
    decreases n,
{
    if n > 0 {
        lemma_skills_upto_count(results, recs, n - 1);
        lemma_skills_of_blocks_count(results, recs, n - 1, record_blocks(recs[n - 1]));
    }
}

/// One invocation per launching `Skill` tool_use: a session has exactly as
/// many skill invocations as `tool_use` blocks named `Skill`.
pub proof fn law_one_invocation_per_skill_launch(recs: Seq<JsonlRecord>)
    ensures
        session_skills(recs).len() == skill_launches(recs, recs.len() as int),
{
    lemma_skills_upto_count(result_pairs(recs), recs, recs.len() as int);
}

fn tool_results_by_id(records: &[JsonlRecord]) -> (r: Vec<(String, (bool, String))>)
    ensures
        keyed_view(r@) == result_pairs(records@),
{
    let mut out: Vec<(String, (bool, String))> = Vec::new();
    let mut i: usize = 0;
    while i < records.len()
        invariant
            0 <= i <= records@.len(),
            keyed_view(out@) == result_pairs(records@.take(i as int)),
        decreases records.len() - i,
    {
        let blocks = content_blocks(&records[i]);
        let ghost bv = blocks_view(blocks@);
        let ghost base = out@;
        let mut j: usize = 0;
        while j < blocks.len()
            invariant
                0 <= j <= blocks@.len(),
                bv == blocks_view(blocks@),
                keyed_view(out@) == keyed_view(base) + result_pairs_of_blocks(bv.take(j as int)),
            decreases blocks.len() - j,
        {
            assert(bv.take(j + 1).drop_last() =~= bv.take(j as int));
            let ghost before = out@;
            if let ContentBlock::ToolResult { tool_use_id, content, is_error, .. } = &blocks[j] {
                let text = value_to_content_string(content);
                out.push((tool_use_id.clone(), (*is_error, text)));
                assert(keyed_view(out@) =~= keyed_view(before).push(
                    (tool_use_id@, (*is_error, content_string(content@))),
                ));
            }
            j = j + 1;
        }
        assert(bv.take(bv.len() as int) =~= bv);
        assert(records@.take(i + 1).drop_last() =~= records@.take(i as int));
        assert(keyed_view(out@) =~= result_pairs(records@.take(i + 1)));
        i = i + 1;
    }
    assert(records@.take(records@.len() as int) =~= records@);
    out
}

fn is_attributed(r: &JsonlRecord, name: &String) -> (b: bool)
    ensures
        b == attributed(*r, name@),
{
    match &r.attribution_skill {
        Some(a) => *a == *name,
        None => false,
    }
}

/// `(tool_uses, failed_results)` among the records `s..=e`, as held in
/// `usize`s.
#[verifier::loop_isolation(false)]
fn window_counts(records: &[JsonlRecord], s: usize, e: usize) -> (r: (usize, usize))
    requires
        s <= e < records@.len(),
    ensures
        r.0 == clamp_usize(uses_in_range(records@, s as int, e + 1)),
        r.1 == clamp_usize(errors_in_range(records@, s as int, e + 1)),
{
    let mut uses: usize = 0;
    let mut errs: usize = 0;
    let mut k: usize = s;
    while k <= e
        invariant
            s <= k <= e + 1,
            uses == clamp_usize(uses_in_range(records@, s as int, k as int)),
            errs == clamp_usize(errors_in_range(records@, s as int, k as int)),
        decreases e + 1 - k,
    {
        let blocks = content_blocks(&records[k]);
        let ghost bv = blocks_view(blocks@);
        let ghost u0 = uses_in_range(records@, s as int, k as int);
        let ghost e0 = errors_in_range(records@, s as int, k as int);
        let mut j: usize = 0;
        while j < blocks.len()
            invariant
                0 <= j <= blocks@.len(),
                bv == blocks_view(blocks@),
                uses == clamp_usize(u0 + count_tool_uses(bv.take(j as int))),
                errs == clamp_usize(e0 + count_error_results(bv.take(j as int))),
            decreases blocks.len() - j,
        {
            assert(bv.take(j + 1).drop_last() =~= bv.take(j as int));
            match &blocks[j] {
                ContentBlock::ToolUse { .. } => {
                    uses = bump(uses, Ghost(u0 + count_tool_uses(bv.take(j as int))));
                },
                ContentBlock::ToolResult { is_error, .. } => {
                    if *is_error {
                        errs = bump(errs, Ghost(e0 + count_error_results(bv.take(j as int))));
                    }
                },
                _ => {},
            }
            j = j + 1;
        }
        assert(bv.take(bv.len() as int) =~= bv);
        k = k + 1;
    }
    (uses, errs)
}

/// Extracts one invocation per launching `Skill` tool_use, in launch order:
/// the skill name and args from the tool_use input, the window bounds and
/// the inner tool uses and failed results counted over the window (the
/// launch itself falls outside it), and the launch result matched by
/// `tool_use_id`.
#[verifier::loop_isolation(false)]
pub fn extract_skills(records: &[JsonlRecord]) -> (r: Vec<SkillInvocation>)
    ensures
        skills_view(r@) == session_skills(records@),
{
    let results = tool_results_by_id(records);
    let ghost rv = keyed_view(results@);
    let mut out: Vec<SkillInvocation> = Vec::new();
    let mut i: usize = 0;
    while i < records.len()
        invariant
            0 <= i <= records@.len(),
            rv == keyed_view(results@),
            skills_view(out@) == skills_upto(rv, records@, i as int),
        decreases records.len() - i,
    {
        let record = &records[i];
        let blocks = content_blocks(record);
        let ghost bv = blocks_view(blocks@);
        let ghost base = out@;
        let mut j: usize = 0;
        while j < blocks.len()
            invariant
                0 <= j <= blocks@.len(),
                bv == blocks_view(blocks@),
                skills_view(out@) == skills_view(base) + skills_of_blocks(rv, records@, i as int, bv.take(j as int)),
            decreases blocks.len() - j,
        {
            assert(bv.take(j + 1).drop_last() =~= bv.take(j as int));
            let ghost before = out@;
            if let ContentBlock::ToolUse { id, name, input, .. } = &blocks[j] {
                if crate::text::eq_str(name, "Skill") {
                    let skill_name = match str_member_of(input, "skill") {
                        Some(n) => n,
                        None => String::new(),
                    };
                    let args = str_member_of(input, "args");
                    // Window start: the first later record attributed to the skill.
                    let mut w: usize = i + 1;
                    while w < records.len() && !is_attributed(&records[w], &skill_name)
                        invariant
                            i + 1 <= w <= records@.len(),
                            first_attributed(records@, i + 1, skill_name@) == first_attributed(
                                records@,
                                w as int,
                                skill_name@,
                            ),
                        decreases records.len() - w,
                    {
                        w = w + 1;
                    }
                    let (started_at, ended_at, inner_tool_uses, inner_errors) = if w < records.len() {
                        let mut e: usize = w;
                        while e + 1 < records.len() && is_attributed(&records[e + 1], &skill_name)
                            invariant
                                w <= e < records@.len(),
                                run_end(records@, w as int, skill_name@) == run_end(records@, e as int, skill_name@),
                            decreases records.len() - e,
                        {
                            e = e + 1;
                        }
                        let (u, x) = window_counts(records, w, e);
                        let started = match &records[w].timestamp {
                            Some(t) => t.clone(),
                            None => String::new(),
                        };
                        let ended = match &records[e].timestamp {
                            Some(t) => Some(t.clone()),
                            None => None,
                        };
                        (started, ended, u, x)
                    } else {
                        (String::new(), None, 0, 0)
                    };
                    let (launch_is_error, launch_content) = match lookup_last_of(&results, id) {
                        Some(l) => (l.0, l.1.clone()),
                        None => (false, String::new()),
                    };
                    let inv = SkillInvocation {
                        skill_name,
                        invocation_uuid: match &record.uuid {
                            Some(u) => u.clone(),
                            None => String::new(),
                        },
                        args,
                        started_at,
                        ended_at,
                        inner_tool_uses,
                        inner_errors,
                        launch_is_error,
                        launch_content,
                    };
                    out.push(inv);
                    assert(inv@ == skill_of(rv, records@, i as int, id@, input@));
                    assert(skills_view(out@) =~= skills_view(before).push(inv@));
                }
            }
            j = j + 1;
        }
        assert(bv.take(bv.len() as int) =~= bv);
        assert(skills_view(out@) =~= skills_upto(rv, records@, i + 1));
        i = i + 1;
    }
    out
}

} // verus!
