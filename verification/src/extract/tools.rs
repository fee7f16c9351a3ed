//! Tool usage per tool name. Every `tool_use` block counts once for its
//! name, and counts as an error where the `tool_result` with its id has
//! `is_error` set. `Skill` and `Task` are `tool_use` blocks too and get rows
//! of their own. Rows are sorted by invocation count, most used first, ties
//! broken by tool name ascending.

use vstd::prelude::*;

use crate::extract::{
    bump, clamp_usize, content_blocks, keyed_view, lookup_last, lookup_last_of, record_blocks,
    tool_use_names, use_pairs,
};
use crate::parser::record::{blocks_view, BlockV, ContentBlock, JsonlRecord};
use crate::text::{lemma_lex_asym, lemma_lex_total, lemma_lex_trans, lex_lt, str_lt};

verus! {

/// Use counts of one tool.
pub struct ToolUsage {
    pub tool_name: String,
    pub invocation_count: usize,
    pub error_count: usize,
}

/// The model of a `ToolUsage`.
pub struct ToolUsageV {
    pub tool_name: Seq<char>,
    pub invocation_count: usize,
    pub error_count: usize,
}

impl View for ToolUsage {
    type V = ToolUsageV;

    open spec fn view(&self) -> ToolUsageV {
        ToolUsageV {
            tool_name: self.tool_name@,
            invocation_count: self.invocation_count,
            error_count: self.error_count,
        }
    }
}

/// The model of a list of tool usages.
pub open spec fn usages_view(v: Seq<ToolUsage>) -> Seq<ToolUsageV> {
    v.map_values(|u: ToolUsage| u@)
}

/// `(tool_use_id, is_error)` of every `tool_result` block.
pub open spec fn error_flags_of_blocks(bs: Seq<BlockV>) -> Seq<(Seq<char>, bool)>
    decreases bs.len(),
{
    if bs.len() == 0 {
        Seq::empty()
    } else {
        let rest = error_flags_of_blocks(bs.drop_last());
        match bs.last() {
            BlockV::ToolResult { tool_use_id, is_error, .. } => rest.push((tool_use_id, is_error)),
            _ => rest,
        }
    }
}

/// The same over every record, in order.
pub open spec fn error_flags(recs: Seq<JsonlRecord>) -> Seq<(Seq<char>, bool)>
    decreases recs.len(),
{
    if recs.len() == 0 {
        Seq::empty()
    } else {
        error_flags(recs.drop_last()) + error_flags_of_blocks(record_blocks(recs.last()))
    }
}

/// The number of uses of tool `name`.
pub open spec fn name_count(uses: Seq<(Seq<char>, Seq<char>)>, name: Seq<char>) -> nat
    decreases uses.len(),
{
    if uses.len() == 0 {
        0
    } else {
        name_count(uses.drop_last(), name) + if uses.last().1 == name {
            1nat
        } else {
            0nat
        }
    }
}

/// Whether the result of tool use `id` failed.
pub open spec fn failed(flags: Seq<(Seq<char>, bool)>, id: Seq<char>) -> bool {
    lookup_last(flags, id) == Some(true)
}

/// The number of failed uses of tool `name`.
pub open spec fn name_errors(
    uses: Seq<(Seq<char>, Seq<char>)>,
    flags: Seq<(Seq<char>, bool)>,
    name: Seq<char>,
) -> nat
    decreases uses.len(),
{
    if uses.len() == 0 {
        0
    } else {
        name_errors(uses.drop_last(), flags, name) + if uses.last().1 == name && failed(
            flags,
            uses.last().0,
        ) {
            1nat
        } else {
            0nat
        }
    }
}

/// Whether some use is of tool `name`.
pub open spec fn used(uses: Seq<(Seq<char>, Seq<char>)>, name: Seq<char>) -> bool {
    exists|i: int| 0 <= i < uses.len() && #[trigger] uses[i].1 == name
}

/// Row `a` sorts before row `b`: more invocations first, then name
/// ascending.
pub open spec fn row_before(a: ToolUsageV, b: ToolUsageV) -> bool {
    a.invocation_count > b.invocation_count || (a.invocation_count == b.invocation_count
        && lex_lt(a.tool_name, b.tool_name))
}

/// The rows are in order.
pub open spec fn rows_sorted(rows: Seq<ToolUsageV>) -> bool {
    forall|a: int, b: int| 0 <= a < b < rows.len() ==> row_before(#[trigger] rows[a], #[trigger] rows[b])
}

/// No two rows share a name.
pub open spec fn names_distinct(rows: Seq<ToolUsageV>) -> bool {
    forall|a: int, b: int|
        0 <= a < rows.len() && 0 <= b < rows.len() && a != b ==> #[trigger] rows[a].tool_name
            != #[trigger] rows[b].tool_name
}

/// Whether some row has name `name`.
pub open spec fn has_row(rows: Seq<ToolUsageV>, name: Seq<char>) -> bool {
    exists|k: int| 0 <= k < rows.len() && #[trigger] rows[k].tool_name == name
}

/// Each row counts its tool's uses and failed uses.
pub open spec fn rows_counted(
    rows: Seq<ToolUsageV>,
    uses: Seq<(Seq<char>, Seq<char>)>,
    flags: Seq<(Seq<char>, bool)>,
) -> bool {
    forall|k: int|
        0 <= k < rows.len() ==> (#[trigger] rows[k]).invocation_count == clamp_usize(
            name_count(uses, rows[k].tool_name),
        ) && rows[k].error_count == clamp_usize(name_errors(uses, flags, rows[k].tool_name))
}

/// The tool-usage table of the uses `uses`: exactly one row per tool name
/// used, each with its counts, in order.
pub open spec fn is_usage_table(
    rows: Seq<ToolUsageV>,
    uses: Seq<(Seq<char>, Seq<char>)>,
    flags: Seq<(Seq<char>, bool)>,
) -> bool {
    &&& names_distinct(rows)
    &&& forall|name: Seq<char>| used(uses, name) <==> has_row(rows, name)
    &&& rows_counted(rows, uses, flags)
    &&& rows_sorted(rows)
}


/// The invocation counts of the rows, added up.
pub open spec fn total_invocations(rows: Seq<ToolUsageV>) -> nat
    decreases rows.len(),
{
    if rows.len() == 0 {
        0
    } else {
        total_invocations(rows.drop_last()) + rows.last().invocation_count as nat
    }
}

/// The uses counted under the rows' names, added up.
spec fn counted_uses(rows: Seq<ToolUsageV>, uses: Seq<(Seq<char>, Seq<char>)>) -> nat
    decreases rows.len(),
{
    if rows.len() == 0 {
        0
    } else {
        counted_uses(rows.drop_last(), uses) + name_count(uses, rows.last().tool_name)
    }
}

/// The number of rows named `m`.
spec fn rows_named(rows: Seq<ToolUsageV>, m: Seq<char>) -> nat
    decreases rows.len(),
{
    if rows.len() == 0 {
        0
    } else {
        rows_named(rows.drop_last(), m) + if rows.last().tool_name == m {
            1nat
        } else {
            0nat
        }
    }
}

proof fn lemma_name_count_bound(uses: Seq<(Seq<char>, Seq<char>)>, name: Seq<char>)
    ensures
        name_count(uses, name) <= uses.len(),
    decreases uses.len(),
{
    if uses.len() > 0 {
        lemma_name_count_bound(uses.drop_last(), name);
    }
}

proof fn lemma_counted_uses_step(rows: Seq<ToolUsageV>, uses: Seq<(Seq<char>, Seq<char>)>)
    requires
        uses.len() > 0,
    ensures
        counted_uses(rows, uses) == counted_uses(rows, uses.drop_last()) + rows_named(
            rows,
            uses.last().1,
        ),
    decreases rows.len(),
{
    if rows.len() > 0 {
        lemma_counted_uses_step(rows.drop_last(), uses);
    }
}

proof fn lemma_rows_named_distinct(rows: Seq<ToolUsageV>, m: Seq<char>)
    requires
        names_distinct(rows),
    ensures
        rows_named(rows, m) == if has_row(rows, m) {
            1nat
        } else {
            0nat
        },
    decreases rows.len(),
{
    if rows.len() > 0 {
        let init = rows.drop_last();
        assert(names_distinct(init)) by {
            assert forall|a: int, b: int|
                0 <= a < init.len() && 0 <= b < init.len() && a != b implies #[trigger] init[a].tool_name
                != #[trigger] init[b].tool_name by {
                assert(init[a] == rows[a] && init[b] == rows[b]);
            }
        }
        lemma_rows_named_distinct(init, m);
        if rows.last().tool_name == m {
            assert(has_row(rows, m)) by {
                assert(rows[rows.len() - 1].tool_name == m);
            }
            if has_row(init, m) {
                let k = choose|k: int| 0 <= k < init.len() && #[trigger] init[k].tool_name == m;
                assert(rows[k].tool_name == rows[rows.len() - 1].tool_name);
            }
        } else {
            if has_row(rows, m) {
                let k = choose|k: int| 0 <= k < rows.len() && #[trigger] rows[k].tool_name == m;
                assert(init[k].tool_name == m);
            }
            if has_row(init, m) {
                let k = choose|k: int| 0 <= k < init.len() && #[trigger] init[k].tool_name == m;
                assert(rows[k].tool_name == m);
            }
        }
    }
}

proof fn lemma_counted_uses_total(rows: Seq<ToolUsageV>, uses: Seq<(Seq<char>, Seq<char>)>)
    requires
        names_distinct(rows),
        forall|name: Seq<char>| used(uses, name) ==> has_row(rows, name),
    ensures
        counted_uses(rows, uses) == uses.len(),
    decreases uses.len(),
{
    if uses.len() == 0 {
        lemma_counted_uses_empty(rows, uses);
    } else {
        let init = uses.drop_last();
        assert forall|name: Seq<char>| used(init, name) implies has_row(rows, name) by {
            let i = choose|i: int| 0 <= i < init.len() && #[trigger] init[i].1 == name;
            assert(uses[i].1 == name);
        }
        lemma_counted_uses_total(rows, init);
        lemma_counted_uses_step(rows, uses);
        assert(used(uses, uses.last().1)) by {
            assert(uses[uses.len() - 1].1 == uses.last().1);
        }
        lemma_rows_named_distinct(rows, uses.last().1);
    }
}

proof fn lemma_counted_uses_empty(rows: Seq<ToolUsageV>, uses: Seq<(Seq<char>, Seq<char>)>)
    requires
        uses.len() == 0,
    ensures
        counted_uses(rows, uses) == 0,
    decreases rows.len(),
{
    if rows.len() > 0 {
        lemma_counted_uses_empty(rows.drop_last(), uses);
    }
}

proof fn lemma_total_is_counted(
    rows: Seq<ToolUsageV>,
    uses: Seq<(Seq<char>, Seq<char>)>,
    flags: Seq<(Seq<char>, bool)>,
)
    requires
        rows_counted(rows, uses, flags),
        uses.len() <= usize::MAX,
    ensures
        total_invocations(rows) == counted_uses(rows, uses),
    decreases rows.len(),
{
    if rows.len() > 0 {
        let init = rows.drop_last();
        assert(rows_counted(init, uses, flags)) by {
            assert forall|k: int| 0 <= k < init.len() implies (#[trigger] init[k]).invocation_count
                == clamp_usize(name_count(uses, init[k].tool_name)) && init[k].error_count
                == clamp_usize(name_errors(uses, flags, init[k].tool_name)) by {
                assert(init[k] == rows[k]);
            }
        }
        lemma_total_is_counted(init, uses, flags);
        assert(rows[rows.len() - 1] == rows.last());
        lemma_name_count_bound(uses, rows.last().tool_name);
    }
}

/// The Tools table accounts for every tool call exactly once: its
/// invocation counts add up to the number of `tool_use` blocks in the
/// session (where that number fits a `usize`).
pub proof fn law_tools_count_every_call(rows: Seq<ToolUsageV>, recs: Seq<JsonlRecord>)
    requires
        is_session_tools(rows, recs),
        use_pairs(recs).len() <= usize::MAX,
    ensures
        total_invocations(rows) == use_pairs(recs).len(),
{
    let uses = use_pairs(recs);
    lemma_counted_uses_total(rows, uses);
    lemma_total_is_counted(rows, uses, error_flags(recs));
}

/// The tool-usage table of a session.
pub open spec fn is_session_tools(rows: Seq<ToolUsageV>, recs: Seq<JsonlRecord>) -> bool {
    is_usage_table(rows, use_pairs(recs), error_flags(recs))
}

fn tool_error_flags(records: &[JsonlRecord]) -> (r: Vec<(String, bool)>)
    ensures
        keyed_view(r@) == error_flags(records@),
{
    let mut out: Vec<(String, bool)> = Vec::new();
    let mut i: usize = 0;
    while i < records.len()
        invariant
            0 <= i <= records@.len(),
            keyed_view(out@) == error_flags(records@.take(i as int)),
        decreases records.len() - i,
    {
        let blocks = content_blocks(&records[i]);
        let ghost bv = blocks_view(blocks@);
        let ghost base = out@;
        let mut j: usize = 0;
        while j < blocks.len()
            invariant
                0 <= j <= blocks@.len(),
                bv == blocks_view(blocks@),
                keyed_view(out@) == keyed_view(base) + error_flags_of_blocks(bv.take(j as int)),
            decreases blocks.len() - j,
        {
            assert(bv.take(j + 1).drop_last() =~= bv.take(j as int));
            let ghost before = out@;
            if let ContentBlock::ToolResult { tool_use_id, is_error, .. } = &blocks[j] {
                out.push((tool_use_id.clone(), *is_error));
                assert(keyed_view(out@) =~= keyed_view(before).push((tool_use_id@, *is_error)));
            }
            j = j + 1;
        }
        assert(bv.take(bv.len() as int) =~= bv);
        assert(records@.take(i + 1).drop_last() =~= records@.take(i as int));
        assert(keyed_view(out@) =~= error_flags(records@.take(i + 1)));
        i = i + 1;
    }
    assert(records@.take(records@.len() as int) =~= records@);
    out
}

/// The rows of the distinct tool names, counted, in first-use order.
#[verifier::loop_isolation(false)]
fn count_rows(uses: &Vec<(String, String)>, flags: &Vec<(String, bool)>) -> (r: Vec<ToolUsage>)
    ensures
        names_distinct(usages_view(r@)),
        forall|name: Seq<char>|
            used(keyed_view(uses@), name) <==> has_row(usages_view(r@), name),
        rows_counted(usages_view(r@), keyed_view(uses@), keyed_view(flags@)),
{
    let ghost uv = keyed_view(uses@);
    let ghost fv = keyed_view(flags@);
    let mut rows: Vec<ToolUsage> = Vec::new();
    let mut k: usize = 0;
    while k < uses.len()
        invariant
            0 <= k <= uses@.len(),
            names_distinct(usages_view(rows@)),
            forall|name: Seq<char>| used(uv.take(k as int), name) <==> has_row(usages_view(rows@), name),
            rows_counted(usages_view(rows@), uv.take(k as int), fv),
        decreases uses.len() - k,
    {
        let ghost pre = uv.take(k as int);
        let ghost post = uv.take(k + 1);
        assert(post.drop_last() =~= pre);
        let ghost rv = usages_view(rows@);
        let name = &uses[k].1;
        let is_failed = match lookup_last_of(flags, &uses[k].0) {
            Some(f) => *f,
            None => false,
        };
        assert(is_failed == failed(fv, uv[k as int].0));
        // Find the row of this name.
        let mut p: usize = 0;
        while p < rows.len() && rows[p].tool_name != *name
            invariant
                0 <= p <= rows@.len(),
                forall|q: int| 0 <= q < p ==> (#[trigger] rows@[q]).tool_name@ != name@,
            decreases rows.len() - p,
        {
            p = p + 1;
        }
        assert forall|n: Seq<char>| #[trigger] used(post, n) <==> (used(pre, n) || n == name@) by {
            if used(post, n) {
                let i = choose|i: int| 0 <= i < post.len() && #[trigger] post[i].1 == n;
                if i < pre.len() {
                    assert(pre[i].1 == n);
                }
            }
            if used(pre, n) {
                let i = choose|i: int| 0 <= i < pre.len() && #[trigger] pre[i].1 == n;
                assert(post[i].1 == n);
            }
            if n == name@ {
                assert(post[k as int].1 == n);
            }
        }
        if p < rows.len() {
            let old_row = &rows[p];
            let ghost c0 = name_count(pre, name@);
            let ghost e0 = name_errors(pre, fv, name@);
            assert(rv[p as int].tool_name == name@);
            let inv = bump(old_row.invocation_count, Ghost(c0));
            let err = if is_failed {
                bump(old_row.error_count, Ghost(e0))
            } else {
                old_row.error_count
            };
            let row = ToolUsage { tool_name: name.clone(), invocation_count: inv, error_count: err };
            rows.set(p, row);
            proof {
                let nv = usages_view(rows@);
                assert(nv =~= rv.update(p as int, row@));
                assert forall|q: int| 0 <= q < nv.len() implies (#[trigger] nv[q]).invocation_count
                    == clamp_usize(name_count(post, nv[q].tool_name)) && nv[q].error_count
                    == clamp_usize(name_errors(post, fv, nv[q].tool_name)) by {
                    if q != p {
                        assert(rv[q] == nv[q]);
                        assert(rv[q].tool_name != name@);
                    }
                }
                assert forall|a: int, b: int|
                    0 <= a < nv.len() && 0 <= b < nv.len() && a != b implies #[trigger] nv[a].tool_name
                        != #[trigger] nv[b].tool_name by {
                    assert(nv[a].tool_name == rv[a].tool_name);
                    assert(nv[b].tool_name == rv[b].tool_name);
                }
                assert forall|n: Seq<char>| used(post, n) <==> #[trigger] has_row(nv, n) by {
                    if has_row(nv, n) {
                        let q = choose|q: int| 0 <= q < nv.len() && #[trigger] nv[q].tool_name == n;
                        assert(rv[q].tool_name == n);
                    }
                    if has_row(rv, n) {
                        let q = choose|q: int| 0 <= q < rv.len() && #[trigger] rv[q].tool_name == n;
                        assert(nv[q].tool_name == n);
                    }
                }
            }
        } else {
            let row = ToolUsage {
                tool_name: name.clone(),
                invocation_count: 1,
                error_count: if is_failed { 1 } else { 0 },
            };
            proof {
                assert(!has_row(rv, name@));
                assert(!used(pre, name@));
                assert(name_count(pre, name@) == 0) by {
                    lemma_unused_counts(pre, fv, name@);
                }
                assert(name_errors(pre, fv, name@) == 0) by {
                    lemma_unused_counts(pre, fv, name@);
                }
            }
            rows.push(row);
            proof {
                let nv = usages_view(rows@);
                assert(nv =~= rv.push(row@));
                assert forall|q: int| 0 <= q < nv.len() implies (#[trigger] nv[q]).invocation_count
                    == clamp_usize(name_count(post, nv[q].tool_name)) && nv[q].error_count
                    == clamp_usize(name_errors(post, fv, nv[q].tool_name)) by {
                    if q < rv.len() {
                        assert(rv[q] == nv[q]);
                        assert(rv[q].tool_name != name@) by {
                            if rv[q].tool_name == name@ {
                                assert(has_row(rv, name@));
                            }
                        }
                    }
                }
                assert forall|a: int, b: int|
                    0 <= a < nv.len() && 0 <= b < nv.len() && a != b implies #[trigger] nv[a].tool_name
                        != #[trigger] nv[b].tool_name by {
                    if a < rv.len() && b < rv.len() {
                        assert(nv[a].tool_name == rv[a].tool_name);
                        assert(nv[b].tool_name == rv[b].tool_name);
                    } else if a < rv.len() {
                        assert(nv[a].tool_name == rv[a].tool_name);
                        if nv[a].tool_name == name@ {
                            assert(has_row(rv, name@));
                        }
                    } else if b < rv.len() {
                        assert(nv[b].tool_name == rv[b].tool_name);
                        if nv[b].tool_name == name@ {
                            assert(has_row(rv, name@));
                        }
                    }
                }
                assert forall|n: Seq<char>| used(post, n) <==> #[trigger] has_row(nv, n) by {
                    if has_row(nv, n) {
                        let q = choose|q: int| 0 <= q < nv.len() && #[trigger] nv[q].tool_name == n;
                        if q < rv.len() {
                            assert(rv[q].tool_name == n);
                        }
                    }
                    if has_row(rv, n) {
                        let q = choose|q: int| 0 <= q < rv.len() && #[trigger] rv[q].tool_name == n;
                        assert(nv[q].tool_name == n);
                    }
                    if n == name@ {
                        assert(nv[rv.len() as int].tool_name == n);
                    }
                }
            }
        }
        k = k + 1;
    }
    assert(uv.take(uv.len() as int) =~= uv);
    rows
}

proof fn lemma_unused_counts(
    uses: Seq<(Seq<char>, Seq<char>)>,
    flags: Seq<(Seq<char>, bool)>,
    name: Seq<char>,
)
    requires
        !used(uses, name),
    ensures
        name_count(uses, name) == 0,
        name_errors(uses, flags, name) == 0,
    decreases uses.len(),
{
    if uses.len() > 0 {
        assert(!used(uses.drop_last(), name)) by {
            if used(uses.drop_last(), name) {
                let i = choose|i: int| 0 <= i < uses.drop_last().len() && #[trigger] uses.drop_last()[i].1 == name;
                assert(uses[i].1 == name);
            }
        }
        assert(uses.last().1 != name) by {
            if uses.last().1 == name {
                assert(uses[uses.len() - 1].1 == name);
            }
        }
        lemma_unused_counts(uses.drop_last(), flags, name);
    }
}

/// `row_before` orders two rows of different names, one way only, and
/// transitively.
proof fn lemma_row_order(a: ToolUsageV, b: ToolUsageV, c: ToolUsageV)
    ensures
        a.tool_name != b.tool_name ==> row_before(a, b) || row_before(b, a),
        !(row_before(a, b) && row_before(b, a)),
        row_before(a, b) && row_before(b, c) ==> row_before(a, c),
{
    if a.tool_name != b.tool_name {
        lemma_lex_total(a.tool_name, b.tool_name);
    }
    lemma_lex_asym(a.tool_name, b.tool_name);
    if row_before(a, b) && row_before(b, c) && a.invocation_count == b.invocation_count
        && b.invocation_count == c.invocation_count {
        lemma_lex_trans(a.tool_name, b.tool_name, c.tool_name);
    }
}

fn before(a: &ToolUsage, b: &ToolUsage) -> (r: bool)
    ensures
        r == row_before(a@, b@),
{
    a.invocation_count > b.invocation_count || (a.invocation_count == b.invocation_count && str_lt(
        &a.tool_name,
        &b.tool_name,
    ))
}

/// The rows, sorted by `row_before` (insertion sort).
#[verifier::loop_isolation(false)]
fn sort_rows(rows: Vec<ToolUsage>) -> (r: Vec<ToolUsage>)
    requires
        names_distinct(usages_view(rows@)),
    ensures
        rows_sorted(usages_view(r@)),
        usages_view(r@).to_multiset() == usages_view(rows@).to_multiset(),
        usages_view(r@).len() == usages_view(rows@).len(),
{
    let ghost input = usages_view(rows@);
    assert(input.len() == rows.len());
    let mut rows = rows;
    let mut out: Vec<ToolUsage> = Vec::new();
    let mut k: usize = 0;
    proof {
        assert(input.take(0) =~= Seq::<ToolUsageV>::empty());
        assert(usages_view(out@) =~= Seq::<ToolUsageV>::empty());
    }
    while rows.len() > 0
        invariant
            0 <= k <= input.len(),
            usages_view(rows@) == input.skip(k as int),
            rows_sorted(usages_view(out@)),
            usages_view(out@).to_multiset() == input.take(k as int).to_multiset(),
            usages_view(out@).len() == k,
            input.len() <= usize::MAX,
        decreases rows.len(),
    {
        assert(usages_view(rows@).len() == rows@.len());
        assert(input.skip(k as int).len() == input.len() - k);
        assert(k < input.len());
        let x = rows.remove(0);
        let ghost ov = usages_view(out@);
        proof {
            assert(input.skip(k as int)[0] == x@);
            assert(input.skip(k as int).drop_first() =~= input.skip(k + 1));
            assert(input.take(k + 1) =~= input.take(k as int).push(x@));
        }
        let mut p: usize = 0;
        while p < out.len() && !before(&x, &out[p])
            invariant
                0 <= p <= out@.len(),
                ov == usages_view(out@),
                forall|q: int| 0 <= q < p ==> !row_before(x@, #[trigger] ov[q]),
            decreases out.len() - p,
        {
            p = p + 1;
        }
        out.insert(p, x);
        proof {
            let nv = usages_view(out@);
            assert(nv =~= ov.insert(p as int, x@));
            // x differs in name from every row already placed.
            ov.to_multiset_ensures();
            input.take(k as int).to_multiset_ensures();
            assert forall|q: int| 0 <= q < ov.len() implies #[trigger] ov[q].tool_name != x@.tool_name by {
                assert(ov.contains(ov[q]));
                assert(ov.to_multiset().count(ov[q]) > 0);
                assert(input.take(k as int).to_multiset().count(ov[q]) > 0);
                assert(input.take(k as int).contains(ov[q]));
                let j = choose|j: int| 0 <= j < input.take(k as int).len() && #[trigger] input.take(k as int)[j] == ov[q];
                assert(input[j] == ov[q]);
                assert(input[k as int] == x@);
            }
            assert forall|a: int, b: int| 0 <= a < b < nv.len() implies row_before(
                #[trigger] nv[a],
                #[trigger] nv[b],
            ) by {
                if a < p && b < p {
                    assert(nv[a] == ov[a] && nv[b] == ov[b]);
                } else if a < p && b == p {
                    lemma_row_order(x@, ov[a], ov[a]);
                } else if a < p {
                    assert(nv[a] == ov[a] && nv[b] == ov[b - 1]);
                } else if a == p {
                    assert(row_before(x@, ov[p as int]));
                    if b - 1 > p {
                        lemma_row_order(x@, ov[p as int], ov[b - 1]);
                    }
                } else {
                    assert(nv[a] == ov[a - 1] && nv[b] == ov[b - 1]);
                }
            }
            assert(nv.to_multiset() =~= ov.to_multiset().insert(x@)) by {
                nv.to_multiset_ensures();
                assert(nv.remove(p as int) =~= ov);
                assert(nv[p as int] == x@);
                assert(nv.to_multiset().remove(x@) == ov.to_multiset());
                assert(nv.contains(x@));
            }
            assert(input.take(k as int).push(x@).to_multiset() =~= input.take(k as int).to_multiset().insert(x@));
        }
        k = k + 1;
    }
    assert(input.take(input.len() as int) =~= input);
    out
}

/// Counts `tool_use` blocks per tool name, with the failed ones (those whose
/// matching `tool_result` has `is_error` set), sorted by invocation count
/// descending with ties broken by tool name ascending.
pub fn extract_tools(records: &[JsonlRecord]) -> (r: Vec<ToolUsage>)
    ensures
        is_session_tools(usages_view(r@), records@),
{
    let uses = tool_use_names(records);
    let flags = tool_error_flags(records);
    let rows = count_rows(&uses, &flags);
    let sorted = sort_rows(rows);
    proof {
        let rv = usages_view(rows@);
        let sv = usages_view(sorted@);
        sv.to_multiset_ensures();
        rv.to_multiset_ensures();
        assert forall|q: int| 0 <= q < sv.len() implies rv.contains(#[trigger] sv[q]) by {
            assert(sv.contains(sv[q]));
            assert(sv.to_multiset().count(sv[q]) > 0);
            assert(rv.to_multiset().count(sv[q]) > 0);
        }
        assert forall|q: int| 0 <= q < rv.len() implies sv.contains(#[trigger] rv[q]) by {
            assert(rv.contains(rv[q]));
            assert(rv.to_multiset().count(rv[q]) > 0);
            assert(sv.to_multiset().count(rv[q]) > 0);
        }
        assert forall|a: int, b: int|
            0 <= a < sv.len() && 0 <= b < sv.len() && a != b implies #[trigger] sv[a].tool_name
                != #[trigger] sv[b].tool_name by {
            lemma_row_order(sv[a], sv[b], sv[b]);
            if a < b {
                assert(row_before(sv[a], sv[b]));
            } else {
                assert(row_before(sv[b], sv[a]));
            }
        }
        assert forall|name: Seq<char>| has_row(rv, name) <==> #[trigger] has_row(sv, name) by {
            if has_row(rv, name) {
                let q = choose|q: int| 0 <= q < rv.len() && #[trigger] rv[q].tool_name == name;
                assert(sv.contains(rv[q]));
            }
            if has_row(sv, name) {
                let q = choose|q: int| 0 <= q < sv.len() && #[trigger] sv[q].tool_name == name;
                assert(rv.contains(sv[q]));
            }
        }
        assert forall|q: int| 0 <= q < sv.len() implies (#[trigger] sv[q]).invocation_count
            == clamp_usize(name_count(keyed_view(uses@), sv[q].tool_name)) && sv[q].error_count
            == clamp_usize(name_errors(keyed_view(uses@), keyed_view(flags@), sv[q].tool_name)) by {
            assert(rv.contains(sv[q]));
        }
    }
    sorted
}

} // verus!
