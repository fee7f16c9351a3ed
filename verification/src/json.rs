//! A JSON document model: the values that the session log carries, held as
//! plain data so that the schema logic can read them, together with the
//! compact serialisation that the error and skill excerpts are made of:
//! the arrays and objects are framed here, the string literals written by
//! serde_json.

use vstd::prelude::*;

use crate::text::push_char;

verus! {

/// A JSON number: its value as a `u64` where it is a non-negative integer
/// that fits one, and its canonical compact text.
pub struct JsonNumber {
    pub as_u64: Option<u64>,
    pub text: String,
}

/// One member of a JSON object.
pub struct JsonMember {
    pub key: String,
    pub value: JsonValue,
}

/// A JSON value. Object members keep the order in which they were given,
/// and a key may repeat; the compact text below writes them in that order,
/// each one. It is serde_json's compact text of the same document where the
/// value was built from a `serde_json::Value`, whose objects hold each key
/// once, in sorted order.
pub enum JsonValue {
    Null,
    Bool(bool),
    Number(JsonNumber),
    Str(String),
    Array(Vec<JsonValue>),
    Object(Vec<JsonMember>),
}

/// The mathematical model of a JSON value.
pub enum JsonV {
    Null,
    Bool(bool),
    Number(Option<u64>, Seq<char>),
    Str(Seq<char>),
    Array(Seq<JsonV>),
    Object(Seq<(Seq<char>, JsonV)>),
}

pub open spec fn json_view(v: JsonValue) -> JsonV
    decreases v,
{
    match v {
        JsonValue::Null => JsonV::Null,
        JsonValue::Bool(b) => JsonV::Bool(b),
        JsonValue::Number(n) => JsonV::Number(n.as_u64, n.text@),
        JsonValue::Str(s) => JsonV::Str(s@),
        JsonValue::Array(a) => JsonV::Array(
            Seq::new(a@.len(), |i: int| if 0 <= i < a@.len() { json_view(a@[i]) } else { JsonV::Null }),
        ),
        JsonValue::Object(m) => JsonV::Object(
            Seq::new(
                m@.len(),
                |i: int|
                    if 0 <= i < m@.len() {
                        (m@[i].key@, json_view(m@[i].value))
                    } else {
                        (Seq::empty(), JsonV::Null)
                    },
            ),
        ),
    }
}

impl View for JsonValue {
    type V = JsonV;

    open spec fn view(&self) -> JsonV {
        json_view(*self)
    }
}


/// The value of the first member named `key`, where `v` is an object.
pub open spec fn member_value(m: Seq<(Seq<char>, JsonV)>, key: Seq<char>) -> Option<JsonV>
    decreases m.len(),
{
    if m.len() == 0 {
        None
    } else if m[0].0 == key {
        Some(m[0].1)
    } else {
        member_value(m.drop_first(), key)
    }
}

/// `Value::get` with a string key: the member `key` of an object, `None` for
/// any other value.
pub open spec fn get_v(v: JsonV, key: Seq<char>) -> Option<JsonV> {
    match v {
        JsonV::Object(m) => member_value(m, key),
        _ => None,
    }
}

/// `Value::as_str`.
pub open spec fn as_str_v(v: JsonV) -> Option<Seq<char>> {
    match v {
        JsonV::Str(s) => Some(s),
        _ => None,
    }
}

/// `Value::as_u64`.
pub open spec fn as_u64_v(v: JsonV) -> Option<u64> {
    match v {
        JsonV::Number(n, _) => n,
        _ => None,
    }
}

/// `v.get(key).and_then(as_str)`.
pub open spec fn str_member(v: JsonV, key: Seq<char>) -> Option<Seq<char>> {
    match get_v(v, key) {
        Some(x) => as_str_v(x),
        None => None,
    }
}

/// `v.get(key).and_then(as_u64)`.
pub open spec fn u64_member(v: JsonV, key: Seq<char>) -> Option<u64> {
    match get_v(v, key) {
        Some(x) => as_u64_v(x),
        None => None,
    }
}

/// The member `key` of `v`, where `v` is an object that has one.
#[verifier::loop_isolation(false)]
pub fn get<'a>(v: &'a JsonValue, key: &str) -> (r: Option<&'a JsonValue>)
    ensures
        match r {
            Some(x) => get_v(v@, key@) == Some(x@),
            None => get_v(v@, key@) is None,
        },
{
    match *v {
        JsonValue::Object(ref m) => {
            let ghost mv = v@->Object_0;
            let key_s = key.to_owned();
            assert(mv.subrange(0, mv.len() as int) =~= mv);
            let mut i: usize = 0;
            while i < m.len()
                invariant
                    0 <= i <= m@.len(),
                    mv.len() == m@.len(),
                    forall|j: int| 0 <= j < m@.len() ==> #[trigger] mv[j] == (m@[j].key@, json_view(m@[j].value)),
                    member_value(mv, key@) == member_value(mv.subrange(i as int, mv.len() as int), key@),
                    key_s@ == key@,
                decreases m.len() - i,
            {
                let ghost rest = mv.subrange(i as int, mv.len() as int);
                assert(rest[0] == mv[i as int]);
                if m[i].key == key_s {
                    return Some(&m[i].value);
                }
                assert(rest.drop_first() =~= mv.subrange(i + 1, mv.len() as int));
                i = i + 1;
            }
            None
        },
        _ => None,
    }
}

/// `Value::as_str`.
pub fn as_str(v: &JsonValue) -> (r: Option<&str>)
    ensures
        match r {
            Some(s) => as_str_v(v@) == Some(s@),
            None => as_str_v(v@) is None,
        },
{
    match v {
        JsonValue::Str(s) => Some(s.as_str()),
        _ => None,
    }
}

/// `Value::as_u64`.
pub fn as_u64(v: &JsonValue) -> (r: Option<u64>)
    ensures
        r == as_u64_v(v@),
{
    match v {
        JsonValue::Number(n) => n.as_u64,
        _ => None,
    }
}

/// `v.get(key).and_then(as_str)`, as an owned string.
pub fn str_member_of(v: &JsonValue, key: &str) -> (r: Option<String>)
    ensures
        match r {
            Some(s) => str_member(v@, key@) == Some(s@),
            None => str_member(v@, key@) is None,
        },
{
    match get(v, key) {
        Some(x) => match as_str(x) {
            Some(s) => Some(s.to_owned()),
            None => None,
        },
        None => None,
    }
}

/// `v.get(key).and_then(as_u64)`.
pub fn u64_member_of(v: &JsonValue, key: &str) -> (r: Option<u64>)
    ensures
        r == u64_member(v@, key@),
{
    match get(v, key) {
        Some(x) => as_u64(x),
        None => None,
    }
}

/// A copy of `v` with the same model.
#[verifier::loop_isolation(false)]
pub fn json_clone(v: &JsonValue) -> (r: JsonValue)
    ensures
        r@ == v@,
    decreases v,
{
    match *v {
        JsonValue::Null => JsonValue::Null,
        JsonValue::Bool(b) => JsonValue::Bool(b),
        JsonValue::Number(ref n) => JsonValue::Number(JsonNumber { as_u64: n.as_u64, text: n.text.clone() }),
        JsonValue::Str(ref s) => JsonValue::Str(s.clone()),
        JsonValue::Array(ref a) => {
            let mut out: Vec<JsonValue> = Vec::new();
            let mut i: usize = 0;
            while i < a.len()
                invariant
                    0 <= i <= a@.len(),
                    out@.len() == i,
                    forall|j: int| 0 <= j < i ==> #[trigger] json_view(out@[j]) == json_view(a@[j]),
                decreases a.len() - i,
            {
                proof {
                    broadcast use vstd::std_specs::vec::axiom_vec_index_decreases;
                    assert(decreases_to!(*v => *a));
                    assert(decreases_to!(*a => a@[i as int]));
                    assert(decreases_to!(*v => a@[i as int]));
                }
                let c = json_clone(&a[i]);
                out.push(c);
                i = i + 1;
            }
            let ghost outv = out@;
            let r = JsonValue::Array(out);
            assert(json_view(r)->Array_0 =~= json_view(*v)->Array_0) by {
                assert(r->Array_0@ == outv);
                assert forall|j: int| 0 <= j < outv.len() implies json_view(r)->Array_0[j] == json_view(*v)->Array_0[j] by {
                    assert(json_view(outv[j]) == json_view(a@[j]));
                }
            }
            r
        },
        JsonValue::Object(ref m) => {
            let mut out: Vec<JsonMember> = Vec::new();
            let mut i: usize = 0;
            while i < m.len()
                invariant
                    0 <= i <= m@.len(),
                    out@.len() == i,
                    forall|j: int|
                        0 <= j < i ==> #[trigger] out@[j].key@ == m@[j].key@ && json_view(out@[j].value)
                            == json_view(m@[j].value),
                decreases m.len() - i,
            {
                proof {
                    broadcast use vstd::std_specs::vec::axiom_vec_index_decreases;
                    assert(decreases_to!(*v => *m));
                    assert(decreases_to!(*m => m@[i as int]));
                    assert(decreases_to!(*v => m@[i as int].value));
                }
                let c = json_clone(&m[i].value);
                out.push(JsonMember { key: m[i].key.clone(), value: c });
                i = i + 1;
            }
            let r = JsonValue::Object(out);
            assert(json_view(r)->Object_0 =~= json_view(*v)->Object_0);
            r
        },
    }
}


/// The pieces of `s` joined with `sep` between consecutive pieces.
pub open spec fn join_with(s: Seq<Seq<char>>, sep: Seq<char>) -> Seq<char>
    decreases s.len(),
{
    if s.len() == 0 {
        Seq::empty()
    } else if s.len() == 1 {
        s[0]
    } else {
        join_with(s.drop_last(), sep) + sep + s.last()
    }
}

/// A lowercase hexadecimal digit.
pub open spec fn hex_digit(n: u32) -> char {
    if n < 10 {
        ((48 + n) as u8) as char
    } else {
        ((87 + n) as u8) as char
    }
}

/// How the compact JSON writer renders one character inside a string.
pub open spec fn escape_char(c: char) -> Seq<char> {
    if c == '"' {
        seq!['\\', '"']
    } else if c == '\\' {
        seq!['\\', '\\']
    } else if c == '\u{8}' {
        seq!['\\', 'b']
    } else if c == '\u{c}' {
        seq!['\\', 'f']
    } else if c == '\n' {
        seq!['\\', 'n']
    } else if c == '\r' {
        seq!['\\', 'r']
    } else if c == '\t' {
        seq!['\\', 't']
    } else if (c as u32) < 32 {
        seq!['\\', 'u', '0', '0', hex_digit((c as u32) / 16), hex_digit((c as u32) % 16)]
    } else {
        seq![c]
    }
}

/// The escaped body of a JSON string.
pub open spec fn escape_str(s: Seq<char>) -> Seq<char>
    decreases s.len(),
{
    if s.len() == 0 {
        Seq::empty()
    } else {
        escape_str(s.drop_last()) + escape_char(s.last())
    }
}

/// A JSON string literal.
pub open spec fn quote_str(s: Seq<char>) -> Seq<char> {
    seq!['"'] + escape_str(s) + seq!['"']
}

/// The compact JSON text of a value: no whitespace, members in their order,
/// numbers in their canonical text.
pub open spec fn json_text(v: JsonV) -> Seq<char>
    decreases v, 0int,
{
    match v {
        JsonV::Null => seq!['n', 'u', 'l', 'l'],
        JsonV::Bool(b) => if b {
            seq!['t', 'r', 'u', 'e']
        } else {
            seq!['f', 'a', 'l', 's', 'e']
        },
        JsonV::Number(_, t) => t,
        JsonV::Str(s) => quote_str(s),
        JsonV::Array(a) => seq!['['] + array_items_text(a, a.len() as int) + seq![']'],
        JsonV::Object(m) => seq!['{'] + object_items_text(m, m.len() as int) + seq!['}'],
    }
}

/// The first `n` elements of an array, rendered and separated by commas.
pub open spec fn array_items_text(a: Seq<JsonV>, n: int) -> Seq<char>
    decreases a, n,
{
    if n <= 0 || n > a.len() {
        Seq::empty()
    } else if n == 1 {
        json_text(a[0])
    } else {
        array_items_text(a, n - 1) + seq![','] + json_text(a[n - 1])
    }
}

/// The first `n` members of an object, rendered and separated by commas.
pub open spec fn object_items_text(m: Seq<(Seq<char>, JsonV)>, n: int) -> Seq<char>
    decreases m, n,
{
    if n <= 0 || n > m.len() {
        Seq::empty()
    } else if n == 1 {
        quote_str(m[0].0) + seq![':'] + json_text(m[0].1)
    } else {
        object_items_text(m, n - 1) + seq![','] + quote_str(m[n - 1].0) + seq![':'] + json_text(
            m[n - 1].1,
        )
    }
}

/// `serde_json::to_string` on a string slice: its JSON string literal. As
/// serde_json's `format_escaped_str` shows, the text is put in double
/// quotes with `"` and `\` escaped, the control characters below U+0020
/// escaped (`\b \t \n \f \r` in short form, the others as `\u00XX` with
/// lower-case hex digits), and every other character kept as it is.
/// Serialising a `str` into memory does not fail.
#[verifier::external_body]
fn json_string_literal(s: &str) -> (r: String)
    ensures
        r@ == quote_str(s@),
{
    serde_json::to_string(s).unwrap_or_default()
}

/// Appends the JSON string literal of `s`.
pub fn push_quoted(out: &mut String, s: &str)
    ensures
        final(out)@ == old(out)@ + quote_str(s@),
{
    let q = json_string_literal(s);
    out.append(q.as_str());
}

/// Appends the compact JSON text of `v`.
#[verifier::loop_isolation(false)]
pub fn write_json(out: &mut String, v: &JsonValue)
    ensures
        final(out)@ == old(out)@ + json_text(v@),
    decreases v,
{
    let ghost start = out@;
    match *v {
        JsonValue::Null => {
            proof {
                reveal_strlit("null");
            }
            out.append("null");
        },
        JsonValue::Bool(b) => {
            proof {
                reveal_strlit("true");
                reveal_strlit("false");
            }
            if b {
                out.append("true")
            } else {
                out.append("false")
            }
        },
        JsonValue::Number(ref n) => out.append(n.text.as_str()),
        JsonValue::Str(ref s) => push_quoted(out, s.as_str()),
        JsonValue::Array(ref a) => {
            let ghost av = v@->Array_0;
            push_char(out, '[');
            let mut i: usize = 0;
            while i < a.len()
                invariant
                    0 <= i <= a@.len(),
                    out@ == start + seq!['['] + array_items_text(av, i as int),
                decreases a.len() - i,
            {
                proof {
                    broadcast use vstd::std_specs::vec::axiom_vec_index_decreases;
                    assert(decreases_to!(*v => *a));
                    assert(decreases_to!(*a => a@[i as int]));
                }
                if i > 0 {
                    push_char(out, ',');
                }
                write_json(out, &a[i]);
                assert(json_view(a@[i as int]) == av[i as int]);
                assert(out@ =~= start + seq!['['] + array_items_text(av, i + 1));
                i = i + 1;
            }
            push_char(out, ']');
            assert(v@ == JsonV::Array(av));
        },
        JsonValue::Object(ref m) => {
            let ghost mv = v@->Object_0;
            push_char(out, '{');
            let mut i: usize = 0;
            while i < m.len()
                invariant
                    0 <= i <= m@.len(),
                    out@ == start + seq!['{'] + object_items_text(mv, i as int),
                decreases m.len() - i,
            {
                proof {
                    broadcast use vstd::std_specs::vec::axiom_vec_index_decreases;
                    assert(decreases_to!(*v => *m));
                    assert(decreases_to!(*m => m@[i as int]));
                }
                if i > 0 {
                    push_char(out, ',');
                }
                push_quoted(out, m[i].key.as_str());
                push_char(out, ':');
                write_json(out, &m[i].value);
                assert(mv[i as int] == (m@[i as int].key@, json_view(m@[i as int].value)));
                assert(out@ =~= start + seq!['{'] + object_items_text(mv, i + 1));
                i = i + 1;
            }
            push_char(out, '}');
            assert(v@ == JsonV::Object(mv));
        },
    }
    assert(out@ =~= start + json_text(v@));
}

/// The compact JSON text of `v`: members in the order held, no whitespace
/// (as `serde_json::Value::to_string` writes a value whose objects are
/// already in serde_json's key order).
pub fn to_json_string(v: &JsonValue) -> (r: String)
    ensures
        r@ == json_text(v@),
{
    let mut r = String::new();
    write_json(&mut r, v);
    assert(r@ =~= json_text(v@));
    r
}

} // verus!
