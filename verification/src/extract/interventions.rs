//! Points where a human stepped in. Two sources: the first three error
//! categories re-surfaced (Technical failures are not interventions), and
//! mid-stream `user` records, i.e. those that are not framework noise
//! (`isMeta` unset, no `sourceToolUseID`) and whose parent is an `attachment`
//! record.

use vstd::prelude::*;

use crate::extract::errors::{
    errors_view, extract_errors, session_errors, ErrorCategory, ErrorRecordV, EXCERPT_MAX_CHARS,
};
use crate::extract::{keyed_view, lookup_last, lookup_last_of};
use crate::json::{
    as_str, as_str_v, get, get_v, join_with, json_text, json_view, str_member, to_json_string,
    JsonV, JsonValue,
};
use crate::parser::record::{ostr, JsonlRecord};
use crate::text::{eq_str, take_chars, truncate_chars};

verus! {

/// The two sources of an intervention.
#[derive(Debug, Clone, Copy, PartialEq, Eq, Structural)]
pub enum InterventionKind {
    Error,
    UserMidStream,
}

/// One intervention.
pub struct Intervention {
    pub kind: InterventionKind,
    pub timestamp: String,
    pub tool_name: Option<String>,
    pub excerpt: String,
    pub source_uuid: String,
}

/// The model of an `Intervention`.
pub struct InterventionV {
    pub kind: InterventionKind,
    pub timestamp: Seq<char>,
    pub tool_name: Option<Seq<char>>,
    pub excerpt: Seq<char>,
    pub source_uuid: Seq<char>,
}

impl View for Intervention {
    type V = InterventionV;

    open spec fn view(&self) -> InterventionV {
        InterventionV {
            kind: self.kind,
            timestamp: self.timestamp@,
            tool_name: ostr(self.tool_name),
            excerpt: self.excerpt@,
            source_uuid: self.source_uuid@,
        }
    }
}

/// The model of a list of interventions.
pub open spec fn interventions_view(v: Seq<Intervention>) -> Seq<InterventionV> {
    v.map_values(|i: Intervention| i@)
}

/// The text an element of an array-shaped `message.content` contributes:
/// its `text` member where that is a string, else the element itself where
/// it is a string.
pub open spec fn element_text(b: JsonV) -> Option<Seq<char>> {
    match str_member(b, "text"@) {
        Some(t) => Some(t),
        None => as_str_v(b),
    }
}

/// The texts of the elements that contribute one, in order.
pub open spec fn element_texts(a: Seq<JsonV>) -> Seq<Seq<char>>
    decreases a.len(),
{
    if a.len() == 0 {
        Seq::empty()
    } else {
        let rest = element_texts(a.drop_last());
        match element_text(a.last()) {
            Some(t) => rest.push(t),
            None => rest,
        }
    }
}

/// A user message flattened to text: a string `content` as it is, an array
/// as the texts of its elements joined by single spaces, any other value as
/// its compact JSON, and nothing where there is no `content`.
pub open spec fn message_text(message: JsonV) -> Seq<char> {
    match get_v(message, "content"@) {
        None => Seq::empty(),
        Some(JsonV::Str(s)) => s,
        Some(JsonV::Array(a)) => join_with(element_texts(a), seq![' ']),
        Some(other) => json_text(other),
    }
}

/// The excerpt of a user message: its first 200 characters.
pub open spec fn message_excerpt(message: JsonV) -> Seq<char> {
    take_chars(message_text(message), EXCERPT_MAX_CHARS as nat)
}

/// What one element of an array-shaped message content gives the excerpt:
/// the string under its `text` key, else the element itself where it is a
/// string, else nothing.
pub open spec fn block_text(b: JsonV) -> Option<Seq<char>> {
    match get_v(b, "text"@) {
        Some(JsonV::Str(t)) => Some(t),
        _ => match b {
            JsonV::Str(t) => Some(t),
            _ => None,
        },
    }
}

/// Where the text of element `n` starts in the joined excerpt: the lengths
/// of the earlier elements' texts, each with one separator after it.
pub open spec fn text_offset(a: Seq<JsonV>, n: int) -> int
    decreases n,
{
    if n <= 0 {
        0
    } else {
        text_offset(a, n - 1) + match block_text(a[n - 1]) {
            Some(t) => t.len() as int + 1,
            None => 0int,
        }
    }
}

proof fn lemma_text_offset_grows(a: Seq<JsonV>, i: int, n: int)
    requires
        0 <= i <= n,
    ensures
        0 <= text_offset(a, i) <= text_offset(a, n),
    decreases n,
{
    if n > 0 {
        if i < n {
            lemma_text_offset_grows(a, i, n - 1);
        } else {
            lemma_text_offset_grows(a, n - 1, n - 1);
        }
    }
}

proof fn lemma_join_prefix(a: Seq<JsonV>, n: int)
    requires
        0 <= n <= a.len(),
    ensures
        ({
            let j = join_with(element_texts(a.take(n)), seq![' ']);
            &&& (text_offset(a, n) == 0 <==> element_texts(a.take(n)).len() == 0)
            &&& text_offset(a, n) == 0 ==> j.len() == 0
            &&& text_offset(a, n) > 0 ==> j.len() == text_offset(a, n) - 1
            &&& forall|i: int|
                0 <= i < n && #[trigger] block_text(a[i]) is Some ==> j.subrange(
                    text_offset(a, i) as int,
                    text_offset(a, i) + block_text(a[i])->Some_0.len(),
                ) == block_text(a[i])->Some_0
            &&& forall|i: int|
                0 <= i < n && #[trigger] block_text(a[i]) is Some && text_offset(a, i + 1) <= j.len()
                    ==> j[text_offset(a, i + 1) - 1] == ' '
        }),
    decreases n,
{
    if n > 0 {
        lemma_join_prefix(a, n - 1);
        lemma_text_offset_grows(a, n - 1, n - 1);
        let pre = a.take(n - 1);
        assert(a.take(n).drop_last() =~= pre);
        assert(a.take(n).last() == a[n - 1]);
        let s = element_texts(pre);
        let j0 = join_with(s, seq![' ']);
        let j = join_with(element_texts(a.take(n)), seq![' ']);
        assert(element_text(a[n - 1]) == block_text(a[n - 1]));
        match block_text(a[n - 1]) {
            None => {
                assert(element_texts(a.take(n)) == s);
            },
            Some(t) => {
                assert(element_texts(a.take(n)) == s.push(t));
                if s.len() == 0 {
                    assert(j == t);
                } else {
                    assert(s.push(t).drop_last() =~= s);
                    assert(j == j0 + seq![' '] + t);
                }
                assert forall|i: int|
                    0 <= i < n && #[trigger] block_text(a[i]) is Some implies j.subrange(
                    text_offset(a, i) as int,
                    text_offset(a, i) + block_text(a[i])->Some_0.len(),
                ) == block_text(a[i])->Some_0 by {
                    lemma_text_offset_grows(a, i, i);
                    assert(text_offset(a, i + 1) == text_offset(a, i) + block_text(a[i])->Some_0.len()
                        + 1);
                    assert(text_offset(a, n) == text_offset(a, n - 1) + t.len() + 1);
                    if i < n - 1 {
                        lemma_text_offset_grows(a, i + 1, n - 1);
                        assert(text_offset(a, n - 1) > 0);
                        assert(s.len() > 0);
                        assert(j0.len() == text_offset(a, n - 1) - 1);
                        assert(j.subrange(
                            text_offset(a, i) as int,
                            text_offset(a, i) + block_text(a[i])->Some_0.len(),
                        ) =~= j0.subrange(
                            text_offset(a, i) as int,
                            text_offset(a, i) + block_text(a[i])->Some_0.len(),
                        ));
                    } else {
                        assert(i == n - 1);
                        if s.len() == 0 {
                            assert(text_offset(a, n - 1) == 0);
                        } else {
                            assert(j0.len() == text_offset(a, n - 1) - 1);
                        }
                        assert(j.subrange(text_offset(a, i) as int, text_offset(a, i) + t.len()) =~= t);
                    }
                }
                assert forall|i: int|
                    0 <= i < n && #[trigger] block_text(a[i]) is Some && text_offset(a, i + 1) <= j.len()
                        implies j[text_offset(a, i + 1) - 1] == ' ' by {
                    assert(text_offset(a, n) == text_offset(a, n - 1) + t.len() + 1);
                    lemma_text_offset_grows(a, i, i);
                    assert(text_offset(a, i + 1) == text_offset(a, i) + block_text(a[i])->Some_0.len()
                        + 1);
                    if i < n - 1 {
                        lemma_text_offset_grows(a, i + 1, n - 1);
                        assert(text_offset(a, i + 1) > 0);
                        assert(s.len() > 0);
                        assert(j0.len() == text_offset(a, n - 1) - 1);
                        if text_offset(a, i + 1) <= j0.len() {
                        } else {
                            assert(text_offset(a, i + 1) == text_offset(a, n - 1));
                        }
                    }
                }
            },
        }
    }
}

/// An array-shaped message content is flattened by joining, in order, the
/// text of every element that has one (its string `text`, or the element
/// itself where it is a string) with single spaces: each text stands whole
/// at its place, a space follows every text but the last, and nothing else
/// is added; the excerpt is the first 200 characters of that.
pub proof fn law_array_content_excerpt(m: JsonV)
    ensures
        message_excerpt(m).len() == if message_text(m).len() <= 200 {
            message_text(m).len()
        } else {
            200
        },
        message_excerpt(m) == message_text(m).take(message_excerpt(m).len() as int),
        get_v(m, "content"@) matches Some(JsonV::Array(a)) ==> {
            &&& text_offset(a, a.len() as int) == 0 ==> message_text(m).len() == 0
            &&& text_offset(a, a.len() as int) > 0 ==> message_text(m).len() == text_offset(
                a,
                a.len() as int,
            ) - 1
            &&& forall|i: int|
                0 <= i < a.len() && #[trigger] block_text(a[i]) is Some ==> message_text(m).subrange(
                    text_offset(a, i) as int,
                    text_offset(a, i) + block_text(a[i])->Some_0.len(),
                ) == block_text(a[i])->Some_0
            &&& forall|i: int|
                0 <= i < a.len() && #[trigger] block_text(a[i]) is Some && text_offset(a, i + 1)
                    <= message_text(m).len() ==> message_text(m)[text_offset(a, i + 1) - 1] == ' '
        },
{
    if let Some(JsonV::Array(a)) = get_v(m, "content"@) {
        lemma_join_prefix(a, a.len() as int);
        assert(a.take(a.len() as int) =~= a);
    }
    if message_text(m).len() <= 200 {
        assert(message_text(m).take(message_text(m).len() as int) =~= message_text(m));
    }
}

/// Flattens a user record's `message.content` into an excerpt of at most
/// 200 characters.
#[verifier::loop_isolation(false)]
pub fn user_content_excerpt(message: &JsonValue) -> (r: String)
    ensures
        r@ == message_excerpt(message@),
{
    let content = match get(message, "content") {
        Some(c) => c,
        None => return String::new(),
    };
    let raw = match content {
        JsonValue::Str(s) => s.clone(),
        JsonValue::Array(blocks) => {
            let ghost av = content@->Array_0;
            let mut joined = String::new();
            let mut any = false;
            let mut i: usize = 0;
            while i < blocks.len()
                invariant
                    0 <= i <= blocks@.len(),
                    joined@ == join_with(element_texts(av.take(i as int)), seq![' ']),
                    any == (element_texts(av.take(i as int)).len() > 0),
                decreases blocks.len() - i,
            {
                assert(av[i as int] == json_view(blocks@[i as int]));
                assert(av.take(i + 1).drop_last() =~= av.take(i as int));
                let b = &blocks[i];
                let t = match crate::json::str_member_of(b, "text") {
                    Some(t) => Some(t),
                    None => match as_str(b) {
                        Some(s) => Some(s.to_owned()),
                        None => None,
                    },
                };
                let ghost prev = element_texts(av.take(i as int));
                match t {
                    Some(t) => {
                        if any {
                            crate::text::push_char(&mut joined, ' ');
                        }
                        joined.append(t.as_str());
                        assert(element_texts(av.take(i + 1)) == prev.push(t@));
                        assert(prev.push(t@).drop_last() =~= prev);
                        any = true;
                    },
                    None => {},
                }
                i = i + 1;
            }
            assert(av.take(av.len() as int) =~= av);
            joined
        },
        other => to_json_string(other),
    };
    truncate_chars(raw.as_str(), EXCERPT_MAX_CHARS)
}

/// The interventions that re-surface errors: every error but the Technical
/// ones, in order.
pub open spec fn error_interventions(es: Seq<ErrorRecordV>) -> Seq<InterventionV>
    decreases es.len(),
{
    if es.len() == 0 {
        Seq::empty()
    } else {
        let rest = error_interventions(es.drop_last());
        let e = es.last();
        if e.category == ErrorCategory::Technical {
            rest
        } else {
            rest.push(
                InterventionV {
                    kind: InterventionKind::Error,
                    timestamp: e.timestamp,
                    tool_name: Some(e.tool_name),
                    excerpt: e.excerpt,
                    source_uuid: e.tool_use_id,
                },
            )
        }
    }
}

/// `(uuid, type)` of every record that has a uuid, in order.
pub open spec fn uuid_types(recs: Seq<JsonlRecord>) -> Seq<(Seq<char>, Seq<char>)>
    decreases recs.len(),
{
    if recs.len() == 0 {
        Seq::empty()
    } else {
        let rest = uuid_types(recs.drop_last());
        match recs.last().uuid {
            Some(u) => rest.push((u@, recs.last().record_type@)),
            None => rest,
        }
    }
}

/// Whether record `r` is a mid-stream human message.
pub open spec fn is_mid_stream(types: Seq<(Seq<char>, Seq<char>)>, r: JsonlRecord) -> bool {
    &&& r.record_type@ == "user"@
    &&& r.is_meta != Some(true)
    &&& r.source_tool_use_id is None
    &&& (match r.parent_uuid {
        Some(p) => lookup_last(types, p@) == Some("attachment"@),
        None => false,
    })
}

/// The intervention of a mid-stream human message.
pub open spec fn user_intervention(r: JsonlRecord) -> InterventionV {
    InterventionV {
        kind: InterventionKind::UserMidStream,
        timestamp: match r.timestamp {
            Some(t) => t@,
            None => Seq::empty(),
        },
        tool_name: None,
        excerpt: match r.message {
            Some(m) => message_excerpt(m@),
            None => Seq::empty(),
        },
        source_uuid: match r.uuid {
            Some(u) => u@,
            None => Seq::empty(),
        },
    }
}

/// The mid-stream human messages among the records, in order.
pub open spec fn user_interventions(
    types: Seq<(Seq<char>, Seq<char>)>,
    recs: Seq<JsonlRecord>,
) -> Seq<InterventionV>
    decreases recs.len(),
{
    if recs.len() == 0 {
        Seq::empty()
    } else {
        let rest = user_interventions(types, recs.drop_last());
        if is_mid_stream(types, recs.last()) {
            rest.push(user_intervention(recs.last()))
        } else {
            rest
        }
    }
}

/// The human interventions of a session are exactly, in document order,
/// its `user` records for which the three clauses hold (`isMeta` absent or
/// false, no `sourceToolUseID`, the parent an `attachment` record), one
/// intervention each.
pub proof fn law_mid_stream_interventions(types: Seq<(Seq<char>, Seq<char>)>, recs: Seq<JsonlRecord>)
    ensures
        user_interventions(types, recs) == recs.filter(|r: JsonlRecord| is_mid_stream(types, r)).map_values(
            |r: JsonlRecord| user_intervention(r),
        ),
    decreases recs.len(),
{
    reveal_with_fuel(Seq::filter, 1);
    if recs.len() > 0 {
        law_mid_stream_interventions(types, recs.drop_last());
        let f = |r: JsonlRecord| is_mid_stream(types, r);
        let g = |r: JsonlRecord| user_intervention(r);
        let sub = recs.drop_last().filter(f);
        if is_mid_stream(types, recs.last()) {
            assert(sub.push(recs.last()).map_values(g) =~= sub.map_values(g).push(
                user_intervention(recs.last()),
            ));
        }
    } else {
        assert(recs.filter(|r: JsonlRecord| is_mid_stream(types, r)).map_values(
            |r: JsonlRecord| user_intervention(r),
        ) =~= Seq::<InterventionV>::empty());
    }
}

/// Every intervention of a session: the error-derived ones first, then the
/// mid-stream human messages.
pub open spec fn session_interventions(recs: Seq<JsonlRecord>) -> Seq<InterventionV> {
    error_interventions(session_errors(recs)) + user_interventions(uuid_types(recs), recs)
}


/// The error-kind interventions among `ivs`, in order.
pub open spec fn error_kind(ivs: Seq<InterventionV>) -> Seq<InterventionV>
    decreases ivs.len(),
{
    if ivs.len() == 0 {
        Seq::empty()
    } else if ivs.last().kind == InterventionKind::Error {
        error_kind(ivs.drop_last()).push(ivs.last())
    } else {
        error_kind(ivs.drop_last())
    }
}

/// The number of errors that a human or a hook caused (every category but
/// Technical).
pub open spec fn intervening_errors(es: Seq<ErrorRecordV>) -> nat
    decreases es.len(),
{
    if es.len() == 0 {
        0
    } else {
        intervening_errors(es.drop_last()) + if es.last().category == ErrorCategory::Technical {
            0nat
        } else {
            1nat
        }
    }
}

proof fn lemma_error_kind_concat(a: Seq<InterventionV>, b: Seq<InterventionV>)
    ensures
        error_kind(a + b) == error_kind(a) + error_kind(b),
    decreases b.len(),
{
    if b.len() == 0 {
        assert(a + b =~= a);
        assert(error_kind(a) + error_kind(b) =~= error_kind(a));
    } else {
        assert((a + b).drop_last() =~= a + b.drop_last());
        assert((a + b).last() == b.last());
        lemma_error_kind_concat(a, b.drop_last());
        if b.last().kind == InterventionKind::Error {
            assert(error_kind(a) + error_kind(b) =~= (error_kind(a) + error_kind(b.drop_last())).push(b.last()));
        } else {
        }
    }
}

proof fn lemma_error_interventions_kind(es: Seq<ErrorRecordV>)
    ensures
        error_kind(error_interventions(es)) == error_interventions(es),
        error_interventions(es).len() == intervening_errors(es),
    decreases es.len(),
{
    if es.len() > 0 {
        lemma_error_interventions_kind(es.drop_last());
        let rest = error_interventions(es.drop_last());
        if es.last().category != ErrorCategory::Technical {
            let full = error_interventions(es);
            assert(full.drop_last() =~= rest);
        }
    }
}

proof fn lemma_user_interventions_kind(types: Seq<(Seq<char>, Seq<char>)>, recs: Seq<JsonlRecord>)
    ensures
        error_kind(user_interventions(types, recs)) =~= Seq::<InterventionV>::empty(),
    decreases recs.len(),
{
    if recs.len() > 0 {
        lemma_user_interventions_kind(types, recs.drop_last());
        let rest = user_interventions(types, recs.drop_last());
        if is_mid_stream(types, recs.last()) {
            let full = user_interventions(types, recs);
            assert(full.drop_last() =~= rest);
        }
    }
}

/// The error-kind interventions of a session are exactly its UserRejection,
/// PermissionDenied and HookBlock errors, in the errors' order: one for each
/// error that a human or a hook caused, none for a Technical one.
pub proof fn law_error_interventions_are_intervening_errors(recs: Seq<JsonlRecord>)
    ensures
        error_kind(session_interventions(recs)) == error_interventions(session_errors(recs)),
        error_kind(session_interventions(recs)).len() == intervening_errors(session_errors(recs)),
{
    let es = session_errors(recs);
    lemma_error_kind_concat(error_interventions(es), user_interventions(uuid_types(recs), recs));
    lemma_error_interventions_kind(es);
    lemma_user_interventions_kind(uuid_types(recs), recs);
    assert(error_interventions(es) + Seq::<InterventionV>::empty() =~= error_interventions(es));
}

/// Extracts the interventions of a session: the UserRejection,
/// PermissionDenied and HookBlock errors (keyed by the blocked call's
/// `tool_use_id`), then the mid-stream `user` records (keyed by their own
/// uuid, with no tool name).
pub fn extract_interventions(records: &[JsonlRecord]) -> (r: Vec<Intervention>)
    ensures
        interventions_view(r@) == session_interventions(records@),
{
    let mut out: Vec<Intervention> = Vec::new();
    let errors = extract_errors(records);
    let ghost ev = errors_view(errors@);
    let mut i: usize = 0;
    while i < errors.len()
        invariant
            0 <= i <= errors@.len(),
            ev == errors_view(errors@),
            interventions_view(out@) == error_interventions(ev.take(i as int)),
        decreases errors.len() - i,
    {
        assert(ev.take(i + 1).drop_last() =~= ev.take(i as int));
        let e = &errors[i];
        let ghost before = out@;
        if e.category != ErrorCategory::Technical {
            let iv = Intervention {
                kind: InterventionKind::Error,
                timestamp: e.timestamp.clone(),
                tool_name: Some(e.tool_name.clone()),
                excerpt: e.excerpt.clone(),
                source_uuid: e.tool_use_id.clone(),
            };
            out.push(iv);
            assert(interventions_view(out@) =~= interventions_view(before).push(iv@));
        }
        i = i + 1;
    }
    assert(ev.take(ev.len() as int) =~= ev);
    let ghost error_part = interventions_view(out@);

    let mut types: Vec<(String, String)> = Vec::new();
    let mut k: usize = 0;
    while k < records.len()
        invariant
            0 <= k <= records@.len(),
            keyed_view(types@) == uuid_types(records@.take(k as int)),
        decreases records.len() - k,
    {
        assert(records@.take(k + 1).drop_last() =~= records@.take(k as int));
        let ghost before = types@;
        if let Some(u) = &records[k].uuid {
            types.push((u.clone(), records[k].record_type.clone()));
            assert(keyed_view(types@) =~= keyed_view(before).push((u@, records@[k as int].record_type@)));
        }
        k = k + 1;
    }
    assert(records@.take(records@.len() as int) =~= records@);
    let ghost tv = keyed_view(types@);

    let mut j: usize = 0;
    while j < records.len()
        invariant
            0 <= j <= records@.len(),
            tv == keyed_view(types@),
            tv == uuid_types(records@),
            interventions_view(out@) == error_part + user_interventions(tv, records@.take(j as int)),
        decreases records.len() - j,
    {
        assert(records@.take(j + 1).drop_last() =~= records@.take(j as int));
        let record = &records[j];
        let ghost before = out@;
        let qualifies = if !eq_str(&record.record_type, "user") {
            false
        } else if record.is_meta == Some(true) {
            false
        } else if record.source_tool_use_id.is_some() {
            false
        } else {
            let parent_is_attachment = match &record.parent_uuid {
                Some(p) => match lookup_last_of(&types, p) {
                    Some(t) => eq_str(t, "attachment"),
                    None => false,
                },
                None => false,
            };
            parent_is_attachment
        };
        if qualifies {
            let excerpt = match &record.message {
                Some(m) => user_content_excerpt(m),
                None => String::new(),
            };
            let iv = Intervention {
                kind: InterventionKind::UserMidStream,
                timestamp: match &record.timestamp {
                    Some(t) => t.clone(),
                    None => String::new(),
                },
                tool_name: None,
                excerpt,
                source_uuid: match &record.uuid {
                    Some(u) => u.clone(),
                    None => String::new(),
                },
            };
            out.push(iv);
            assert(iv@ == user_intervention(*record));
            assert(interventions_view(out@) =~= interventions_view(before).push(iv@));
        }
        j = j + 1;
    }
    out
}

} // verus!
