//! Block-level helpers shared by the extractors, and the extractors
//! themselves (one module each).
//!
//! `tool_use` blocks normally live on assistant records and `tool_result`
//! blocks on the user record that follows, but the helpers do not rely on
//! that split: the block tag alone decides, which keeps the pass tolerant of
//! other session shapes.

pub mod errors;
pub mod interventions;
pub mod skills;
pub mod subagents;
pub mod tools;

use vstd::prelude::*;

use crate::json::{get, get_v, json_text, json_view, to_json_string, JsonV, JsonValue};
use crate::parser::record::{
    blocks_view, decode_block, decode_content_block, BlockV, ContentBlock, JsonlRecord,
};

verus! {

/// The elements of a record's `message.content`, where it is an array.
pub open spec fn message_content(r: JsonlRecord) -> Seq<JsonV> {
    match r.message {
        Some(m) => match get_v(m@, "content"@) {
            Some(JsonV::Array(a)) => a,
            _ => Seq::empty(),
        },
        None => Seq::empty(),
    }
}

/// The elements of `a` that decode to content blocks, decoded, in order.
pub open spec fn decoded_blocks(a: Seq<JsonV>) -> Seq<BlockV>
    decreases a.len(),
{
    if a.len() == 0 {
        Seq::empty()
    } else {
        let rest = decoded_blocks(a.drop_last());
        match decode_block(a.last()) {
            Some(b) => rest.push(b),
            None => rest,
        }
    }
}

/// The content blocks of a record.
pub open spec fn record_blocks(r: JsonlRecord) -> Seq<BlockV> {
    decoded_blocks(message_content(r))
}

/// The content blocks of a record's `message.content`, in order; elements
/// that are not known blocks drop out.
#[verifier::loop_isolation(false)]
pub fn content_blocks(record: &JsonlRecord) -> (r: Vec<ContentBlock>)
    ensures
        blocks_view(r@) == record_blocks(*record),
{
    let mut out: Vec<ContentBlock> = Vec::new();
    let message = match &record.message {
        Some(m) => m,
        None => {
            assert(blocks_view(out@) =~= record_blocks(*record));
            return out;
        },
    };
    let a = match get(message, "content") {
        Some(JsonValue::Array(a)) => a,
        _ => {
            assert(blocks_view(out@) =~= record_blocks(*record));
            return out;
        },
    };
    let ghost av = message_content(*record);
    assert(av.len() == a@.len());
    let mut i: usize = 0;
    while i < a.len()
        invariant
            0 <= i <= a@.len(),
            blocks_view(out@) == decoded_blocks(av.take(i as int)),
        decreases a.len() - i,
    {
        assert(av[i as int] == json_view(a@[i as int]));
        assert(av.take(i + 1).drop_last() =~= av.take(i as int));
        let ghost before = out@;
        match decode_content_block(&a[i]) {
            Some(b) => {
                out.push(b);
                assert(blocks_view(out@) =~= blocks_view(before).push(b@));
            },
            None => {},
        }
        i = i + 1;
    }
    assert(av.take(a@.len() as int) =~= av);
    out
}

/// A tool result's content as plain text: a string as it is, any other value
/// as its compact JSON.
pub open spec fn content_string(v: JsonV) -> Seq<char> {
    match v {
        JsonV::Str(s) => s,
        _ => json_text(v),
    }
}

/// Renders a tool result's content to plain text.
pub fn value_to_content_string(content: &JsonValue) -> (r: String)
    ensures
        r@ == content_string(content@),
{
    match content {
        JsonValue::Str(s) => s.clone(),
        _ => to_json_string(content),
    }
}


/// The value of the last pair whose key is `key` (a map filled in order,
/// later entries overwriting earlier ones).
pub open spec fn lookup_last<V>(pairs: Seq<(Seq<char>, V)>, key: Seq<char>) -> Option<V>
    decreases pairs.len(),
{
    if pairs.len() == 0 {
        None
    } else if pairs.last().0 == key {
        Some(pairs.last().1)
    } else {
        lookup_last(pairs.drop_last(), key)
    }
}

/// The model of a list of pairs keyed by strings.
pub open spec fn keyed_view<T: View>(v: Seq<(String, T)>) -> Seq<(Seq<char>, T::V)> {
    v.map_values(|p: (String, T)| (p.0@, p.1@))
}

/// The entry of `pairs` that a map filled from them in order would hold
/// for `key`.
pub fn lookup_last_of<'a, T: View>(pairs: &'a Vec<(String, T)>, key: &String) -> (r: Option<&'a T>)
    ensures
        match r {
            Some(x) => lookup_last(keyed_view(pairs@), key@) == Some(x@),
            None => lookup_last(keyed_view(pairs@), key@) is None,
        },
{
    let ghost pv = keyed_view(pairs@);
    assert(pv.take(pv.len() as int) =~= pv);
    let mut i: usize = pairs.len();
    while i > 0
        invariant
            0 <= i <= pairs@.len(),
            pv == keyed_view(pairs@),
            lookup_last(pv, key@) == lookup_last(pv.take(i as int), key@),
        decreases i,
    {
        i = i - 1;
        assert(pv.take(i + 1).drop_last() =~= pv.take(i as int));
        if pairs[i].0 == *key {
            return Some(&pairs[i].1);
        }
    }
    None
}

/// The `(id, name)` of a `tool_use` block.
pub open spec fn use_pairs_of_blocks(bs: Seq<BlockV>) -> Seq<(Seq<char>, Seq<char>)>
    decreases bs.len(),
{
    if bs.len() == 0 {
        Seq::empty()
    } else {
        let rest = use_pairs_of_blocks(bs.drop_last());
        match bs.last() {
            BlockV::ToolUse { id, name, .. } => rest.push((id, name)),
            _ => rest,
        }
    }
}

/// The `(id, name)` of every `tool_use` block of the records, in order.
pub open spec fn use_pairs(recs: Seq<JsonlRecord>) -> Seq<(Seq<char>, Seq<char>)>
    decreases recs.len(),
{
    if recs.len() == 0 {
        Seq::empty()
    } else {
        use_pairs(recs.drop_last()) + use_pairs_of_blocks(record_blocks(recs.last()))
    }
}

/// `(id, name)` of every `tool_use` block of the records, in order.
pub fn tool_use_names(records: &[JsonlRecord]) -> (r: Vec<(String, String)>)
    ensures
        keyed_view(r@) == use_pairs(records@),
{
    let mut out: Vec<(String, String)> = Vec::new();
    let mut i: usize = 0;
    while i < records.len()
        invariant
            0 <= i <= records@.len(),
            keyed_view(out@) == use_pairs(records@.take(i as int)),
        decreases records.len() - i,
    {
        let blocks = content_blocks(&records[i]);
        let ghost bv = blocks_view(blocks@);
        let ghost base = out@;
        let mut j: usize = 0;
        while j < blocks.len()
            invariant
                0 <= j <= blocks@.len(),
                bv == blocks_view(blocks@),
                keyed_view(out@) == keyed_view(base) + use_pairs_of_blocks(bv.take(j as int)),
            decreases blocks.len() - j,
        {
            assert(bv.take(j + 1).drop_last() =~= bv.take(j as int));
            let ghost before = out@;
            if let ContentBlock::ToolUse { id, name, .. } = &blocks[j] {
                out.push((id.clone(), name.clone()));
                assert(keyed_view(out@) =~= keyed_view(before).push((id@, name@)));
            }
            j = j + 1;
        }
        assert(bv.take(bv.len() as int) =~= bv);
        assert(records@.take(i + 1).drop_last() =~= records@.take(i as int));
        assert(keyed_view(out@) =~= use_pairs(records@.take(i + 1)));
        i = i + 1;
    }
    assert(records@.take(records@.len() as int) =~= records@);
    out
}


/// A count as held in a `usize`: exact below `usize::MAX`, held there above.
pub open spec fn clamp_usize(n: nat) -> usize {
    if n <= usize::MAX {
        n as usize
    } else {
        usize::MAX
    }
}

/// One more, as held in a `usize`.
pub fn bump(c: usize, Ghost(n): Ghost<nat>) -> (r: usize)
    requires
        c == clamp_usize(n),
    ensures
        r == clamp_usize(n + 1),
{
    if c < usize::MAX {
        c + 1
    } else {
        c
    }
}

/// The number of `tool_use` blocks.
pub open spec fn count_tool_uses(bs: Seq<BlockV>) -> nat
    decreases bs.len(),
{
    if bs.len() == 0 {
        0
    } else {
        count_tool_uses(bs.drop_last()) + if bs.last() is ToolUse {
            1nat
        } else {
            0nat
        }
    }
}

/// The number of `tool_result` blocks with `is_error` set.
pub open spec fn count_error_results(bs: Seq<BlockV>) -> nat
    decreases bs.len(),
{
    if bs.len() == 0 {
        0
    } else {
        count_error_results(bs.drop_last()) + if bs.last() matches BlockV::ToolResult {
            is_error,
            ..
        } && is_error {
            1nat
        } else {
            0nat
        }
    }
}

} // verus!
