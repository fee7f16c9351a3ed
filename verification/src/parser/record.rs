//! One line of a session log, decoded from its JSON value. The on-disk keys
//! are camelCase (`parentUuid`, `sessionId`, `attributionSkill`, ...); keys
//! that the schema does not name land in `extra`, never lost and never
//! blocking the decode. Content blocks inside `message.content` are decoded
//! one by one, and an element that is not a known block drops out.

use vstd::prelude::*;

use crate::json::{
    get, get_v, json_clone, json_view, member_value, JsonMember, JsonV, JsonValue,
};
use crate::text::eq_str;

verus! {

/// A decoded session log record.
pub struct JsonlRecord {
    pub record_type: String,
    pub uuid: Option<String>,
    pub parent_uuid: Option<String>,
    pub session_id: Option<String>,
    pub cwd: Option<String>,
    pub timestamp: Option<String>,
    pub version: Option<String>,
    pub git_branch: Option<String>,
    pub user_type: Option<String>,
    pub entrypoint: Option<String>,
    pub permission_mode: Option<String>,
    pub attribution_skill: Option<String>,
    pub attribution_agent: Option<String>,
    pub tool_use_result: Option<JsonValue>,
    pub tool_use_id: Option<String>,
    pub is_meta: Option<bool>,
    pub source_tool_use_id: Option<String>,
    pub message: Option<JsonValue>,
    pub subtype: Option<String>,
    pub attachment: Option<JsonValue>,
    pub extra: Vec<JsonMember>,
}

/// A content block of `message.content`, discriminated by its `type` tag.
pub enum ContentBlock {
    Text { text: String, extra: Vec<JsonMember> },
    ToolUse { id: String, name: String, input: JsonValue, extra: Vec<JsonMember> },
    ToolResult { tool_use_id: String, content: JsonValue, is_error: bool, extra: Vec<JsonMember> },
}

/// The model of a content block.
pub enum BlockV {
    Text { text: Seq<char>, extra: Seq<(Seq<char>, JsonV)> },
    ToolUse { id: Seq<char>, name: Seq<char>, input: JsonV, extra: Seq<(Seq<char>, JsonV)> },
    ToolResult {
        tool_use_id: Seq<char>,
        content: JsonV,
        is_error: bool,
        extra: Seq<(Seq<char>, JsonV)>,
    },
}

/// The model of a list of object members.
pub open spec fn members_view(m: Seq<JsonMember>) -> Seq<(Seq<char>, JsonV)> {
    Seq::new(m.len(), |i: int| (m[i].key@, json_view(m[i].value)))
}

impl View for ContentBlock {
    type V = BlockV;

    open spec fn view(&self) -> BlockV {
        match *self {
            ContentBlock::Text { text, extra } => BlockV::Text {
                text: text@,
                extra: members_view(extra@),
            },
            ContentBlock::ToolUse { id, name, input, extra } => BlockV::ToolUse {
                id: id@,
                name: name@,
                input: input@,
                extra: members_view(extra@),
            },
            ContentBlock::ToolResult { tool_use_id, content, is_error, extra } => BlockV::ToolResult {
                tool_use_id: tool_use_id@,
                content: content@,
                is_error,
                extra: members_view(extra@),
            },
        }
    }
}

/// The model of a list of content blocks.
pub open spec fn blocks_view(s: Seq<ContentBlock>) -> Seq<BlockV> {
    s.map_values(|b: ContentBlock| b@)
}

/// The model of an optional string.
pub open spec fn ostr(o: Option<String>) -> Option<Seq<char>> {
    match o {
        Some(s) => Some(s@),
        None => None,
    }
}

/// The model of an optional JSON value.
pub open spec fn ojson(o: Option<JsonValue>) -> Option<JsonV> {
    match o {
        Some(v) => Some(v@),
        None => None,
    }
}

/// A member is absent, `null`, or a string.
pub open spec fn opt_str_ok(f: Option<JsonV>) -> bool {
    match f {
        None => true,
        Some(JsonV::Null) => true,
        Some(JsonV::Str(_)) => true,
        _ => false,
    }
}

/// The string a member holds, if it holds one.
pub open spec fn opt_str_val(f: Option<JsonV>) -> Option<Seq<char>> {
    match f {
        Some(JsonV::Str(s)) => Some(s),
        _ => None,
    }
}

/// A member is absent, `null`, or a boolean.
pub open spec fn opt_bool_ok(f: Option<JsonV>) -> bool {
    match f {
        None => true,
        Some(JsonV::Null) => true,
        Some(JsonV::Bool(_)) => true,
        _ => false,
    }
}

/// The boolean a member holds, if it holds one.
pub open spec fn opt_bool_val(f: Option<JsonV>) -> Option<bool> {
    match f {
        Some(JsonV::Bool(b)) => Some(b),
        _ => None,
    }
}

/// A member that may hold any value: `null` counts as absent.
pub open spec fn opt_json_val(f: Option<JsonV>) -> Option<JsonV> {
    match f {
        Some(JsonV::Null) => None,
        Some(x) => Some(x),
        None => None,
    }
}

/// The key sets that the schema claims: a record's, and each block variant's
/// (the `type` tag included).
#[derive(Clone, Copy)]
pub enum KeySet {
    Record,
    Text,
    ToolUse,
    ToolResult,
}

/// Whether the schema names key `k` in key set `ks`.
pub open spec fn claimed(ks: KeySet, k: Seq<char>) -> bool {
    match ks {
        KeySet::Record => k == "type"@ || k == "uuid"@ || k == "parentUuid"@ || k == "sessionId"@
            || k == "cwd"@ || k == "timestamp"@ || k == "version"@ || k == "gitBranch"@ || k
            == "userType"@ || k == "entrypoint"@ || k == "permissionMode"@ || k
            == "attributionSkill"@ || k == "attributionAgent"@ || k == "toolUseResult"@ || k
            == "toolUseId"@ || k == "isMeta"@ || k == "sourceToolUseID"@ || k == "message"@ || k
            == "subtype"@ || k == "attachment"@,
        KeySet::Text => k == "type"@ || k == "text"@,
        KeySet::ToolUse => k == "type"@ || k == "id"@ || k == "name"@ || k == "input"@,
        KeySet::ToolResult => k == "type"@ || k == "tool_use_id"@ || k == "content"@ || k
            == "is_error"@,
    }
}

/// The members of `m` that key set `ks` does not claim, in order.
pub open spec fn unknown_members(m: Seq<(Seq<char>, JsonV)>, ks: KeySet) -> Seq<(Seq<char>, JsonV)>
    decreases m.len(),
{
    if m.len() == 0 {
        Seq::empty()
    } else {
        let rest = unknown_members(m.drop_last(), ks);
        if claimed(ks, m.last().0) {
            rest
        } else {
            rest.push(m.last())
        }
    }
}

// ---------------------------------------------------------------------------
// Content blocks
// ---------------------------------------------------------------------------

/// The content block that a JSON value decodes to: an object whose `type` is
/// `text`, `tool_use` or `tool_result`, with the members that variant
/// requires, each of the right kind.
pub open spec fn decode_block(v: JsonV) -> Option<BlockV> {
    match v {
        JsonV::Object(m) => {
            let tag = get_v(v, "type"@);
            if tag == Some(JsonV::Str("text"@)) {
                let t = get_v(v, "text"@);
                match t {
                    None => Some(BlockV::Text { text: Seq::empty(), extra: unknown_members(m, KeySet::Text) }),
                    Some(JsonV::Str(s)) => Some(BlockV::Text { text: s, extra: unknown_members(m, KeySet::Text) }),
                    _ => None,
                }
            } else if tag == Some(JsonV::Str("tool_use"@)) {
                match (get_v(v, "id"@), get_v(v, "name"@)) {
                    (Some(JsonV::Str(id)), Some(JsonV::Str(name))) => Some(BlockV::ToolUse {
                        id,
                        name,
                        input: match get_v(v, "input"@) {
                            Some(x) => x,
                            None => JsonV::Null,
                        },
                        extra: unknown_members(m, KeySet::ToolUse),
                    }),
                    _ => None,
                }
            } else if tag == Some(JsonV::Str("tool_result"@)) {
                match get_v(v, "tool_use_id"@) {
                    Some(JsonV::Str(id)) => {
                        let e = get_v(v, "is_error"@);
                        if e is None || e matches Some(JsonV::Bool(_)) {
                            Some(BlockV::ToolResult {
                                tool_use_id: id,
                                content: match get_v(v, "content"@) {
                                    Some(x) => x,
                                    None => JsonV::Null,
                                },
                                is_error: match e {
                                    Some(JsonV::Bool(b)) => b,
                                    _ => false,
                                },
                                extra: unknown_members(m, KeySet::ToolResult),
                            })
                        } else {
                            None
                        }
                    },
                    _ => None,
                }
            } else {
                None
            }
        },
        _ => None,
    }
}



/// Adding a member with a new key never changes what an earlier key reads.
proof fn lemma_member_value_push(m: Seq<(Seq<char>, JsonV)>, p: (Seq<char>, JsonV), key: Seq<char>)
    requires
        key != p.0,
    ensures
        member_value(m.push(p), key) == member_value(m, key),
    decreases m.len(),
{
    if m.len() > 0 {
        assert(m.push(p).drop_first() =~= m.drop_first().push(p));
        assert(m.push(p)[0] == m[0]);
        lemma_member_value_push(m.drop_first(), p, key);
    } else {
        let e = Seq::<(Seq<char>, JsonV)>::empty();
        assert(m.push(p).drop_first() =~= e);
        assert(member_value(e, key) is None);
        assert(m =~= e);
    }
}

/// Unknown keys never block decoding a record: adding a member whose key
/// the record schema does not name leaves every named field as it reads,
/// leaves whether the record decodes unchanged, and carries the member in
/// `extra`.
pub proof fn law_unknown_record_keys_are_carried(m: Seq<(Seq<char>, JsonV)>, k: Seq<char>, x: JsonV)
    requires
        !claimed(KeySet::Record, k),
    ensures
        forall|key: Seq<char>|
            claimed(KeySet::Record, key) ==> #[trigger] get_v(JsonV::Object(m.push((k, x))), key)
                == get_v(JsonV::Object(m), key),
        record_ok(JsonV::Object(m.push((k, x)))) == record_ok(JsonV::Object(m)),
        unknown_members(m.push((k, x)), KeySet::Record) == unknown_members(m, KeySet::Record).push(
            (k, x),
        ),
{
    assert forall|key: Seq<char>| claimed(KeySet::Record, key) implies #[trigger] get_v(
        JsonV::Object(m.push((k, x))),
        key,
    ) == get_v(JsonV::Object(m), key) by {
        lemma_member_value_push(m, (k, x), key);
    }
    let v1 = JsonV::Object(m.push((k, x)));
    let v0 = JsonV::Object(m);
    assert(claimed(KeySet::Record, "type"@));
    assert(get_v(v1, "type"@) == get_v(v0, "type"@));
    assert(get_v(v1, "uuid"@) == get_v(v0, "uuid"@));
    assert(get_v(v1, "parentUuid"@) == get_v(v0, "parentUuid"@));
    assert(get_v(v1, "sessionId"@) == get_v(v0, "sessionId"@));
    assert(get_v(v1, "cwd"@) == get_v(v0, "cwd"@));
    assert(get_v(v1, "timestamp"@) == get_v(v0, "timestamp"@));
    assert(get_v(v1, "version"@) == get_v(v0, "version"@));
    assert(get_v(v1, "gitBranch"@) == get_v(v0, "gitBranch"@));
    assert(get_v(v1, "userType"@) == get_v(v0, "userType"@));
    assert(get_v(v1, "entrypoint"@) == get_v(v0, "entrypoint"@));
    assert(get_v(v1, "permissionMode"@) == get_v(v0, "permissionMode"@));
    assert(get_v(v1, "attributionSkill"@) == get_v(v0, "attributionSkill"@));
    assert(get_v(v1, "attributionAgent"@) == get_v(v0, "attributionAgent"@));
    assert(get_v(v1, "toolUseId"@) == get_v(v0, "toolUseId"@));
    assert(get_v(v1, "isMeta"@) == get_v(v0, "isMeta"@));
    assert(get_v(v1, "sourceToolUseID"@) == get_v(v0, "sourceToolUseID"@));
    assert(get_v(v1, "subtype"@) == get_v(v0, "subtype"@));
    assert(m.push((k, x)).drop_last() =~= m);
}

/// The same for a content block: a member whose key no block variant names
/// leaves whether (and as what) the block decodes unchanged.
pub proof fn law_unknown_block_keys_are_tolerated(m: Seq<(Seq<char>, JsonV)>, k: Seq<char>, x: JsonV)
    requires
        !claimed(KeySet::Text, k),
        !claimed(KeySet::ToolUse, k),
        !claimed(KeySet::ToolResult, k),
    ensures
        decode_block(JsonV::Object(m.push((k, x)))) is Some <==> decode_block(JsonV::Object(m)) is Some,
        (decode_block(JsonV::Object(m.push((k, x)))) matches Some(BlockV::Text { .. })) <==> (decode_block(
            JsonV::Object(m),
        ) matches Some(BlockV::Text { .. })),
        (decode_block(JsonV::Object(m.push((k, x)))) matches Some(BlockV::ToolUse { .. })) <==> (decode_block(
            JsonV::Object(m),
        ) matches Some(BlockV::ToolUse { .. })),
        (decode_block(JsonV::Object(m.push((k, x)))) matches Some(BlockV::ToolResult { .. })) <==> (decode_block(
            JsonV::Object(m),
        ) matches Some(BlockV::ToolResult { .. })),
{
    let v1 = JsonV::Object(m.push((k, x)));
    let v0 = JsonV::Object(m);
    lemma_member_value_push(m, (k, x), "type"@);
    lemma_member_value_push(m, (k, x), "text"@);
    lemma_member_value_push(m, (k, x), "id"@);
    lemma_member_value_push(m, (k, x), "name"@);
    lemma_member_value_push(m, (k, x), "input"@);
    lemma_member_value_push(m, (k, x), "tool_use_id"@);
    lemma_member_value_push(m, (k, x), "content"@);
    lemma_member_value_push(m, (k, x), "is_error"@);
}

/// Whether key set `ks` claims key `k`.
pub fn is_claimed(ks: KeySet, k: &String) -> (r: bool)
    ensures
        r == claimed(ks, k@),
{
    match ks {
        KeySet::Record => eq_str(k, "type") || eq_str(k, "uuid") || eq_str(k, "parentUuid")
            || eq_str(k, "sessionId") || eq_str(k, "cwd") || eq_str(k, "timestamp") || eq_str(
            k,
            "version",
        ) || eq_str(k, "gitBranch") || eq_str(k, "userType") || eq_str(k, "entrypoint")
            || eq_str(k, "permissionMode") || eq_str(k, "attributionSkill") || eq_str(
            k,
            "attributionAgent",
        ) || eq_str(k, "toolUseResult") || eq_str(k, "toolUseId") || eq_str(k, "isMeta")
            || eq_str(k, "sourceToolUseID") || eq_str(k, "message") || eq_str(k, "subtype")
            || eq_str(k, "attachment"),
        KeySet::Text => eq_str(k, "type") || eq_str(k, "text"),
        KeySet::ToolUse => eq_str(k, "type") || eq_str(k, "id") || eq_str(k, "name") || eq_str(
            k,
            "input",
        ),
        KeySet::ToolResult => eq_str(k, "type") || eq_str(k, "tool_use_id") || eq_str(
            k,
            "content",
        ) || eq_str(k, "is_error"),
    }
}

/// Copies of the members of `m` that key set `ks` does not claim.
pub fn unknown_members_of(m: &Vec<JsonMember>, ks: KeySet) -> (r: Vec<JsonMember>)
    ensures
        members_view(r@) == unknown_members(members_view(m@), ks),
{
    let mut r: Vec<JsonMember> = Vec::new();
    let mut i: usize = 0;
    while i < m.len()
        invariant
            0 <= i <= m@.len(),
            members_view(r@) == unknown_members(members_view(m@).take(i as int), ks),
        decreases m.len() - i,
    {
        let ghost before = r@;
        let ghost mv = members_view(m@);
        assert(mv.take(i + 1).drop_last() =~= mv.take(i as int));
        if !is_claimed(ks, &m[i].key) {
            let c = json_clone(&m[i].value);
            r.push(JsonMember { key: m[i].key.clone(), value: c });
            assert(members_view(r@) =~= members_view(before).push(mv[i as int]));
        } else {
            assert(members_view(r@) =~= members_view(before));
        }
        i = i + 1;
    }
    assert(members_view(m@).take(m@.len() as int) =~= members_view(m@));
    r
}

/// Decodes one element of `message.content`; `None` where the element is not
/// a known content block.
#[verifier::loop_isolation(false)]
pub fn decode_content_block(v: &JsonValue) -> (r: Option<ContentBlock>)
    ensures
        match r {
            Some(b) => decode_block(v@) == Some(b@),
            None => decode_block(v@) is None,
        },
{
    let m = match v {
        JsonValue::Object(m) => m,
        _ => return None,
    };
    assert(members_view(m@) =~= v@->Object_0);
    let tag = match get(v, "type") {
        Some(t) => t,
        None => return None,
    };
    let tag_s = match tag {
        JsonValue::Str(s) => s,
        _ => return None,
    };
    proof {
        reveal_strlit("text");
        reveal_strlit("tool_use");
        reveal_strlit("tool_result");
    }
    if eq_str(tag_s, "text") {
        assert(get_v(v@, "type"@) == Some(JsonV::Str("text"@)));
        let text = match get(v, "text") {
            None => String::new(),
            Some(JsonValue::Str(s)) => s.clone(),
            Some(_) => return None,
        };
        let extra = unknown_members_of(m, KeySet::Text);
        Some(ContentBlock::Text { text, extra })
    } else if eq_str(tag_s, "tool_use") {
        assert(get_v(v@, "type"@) == Some(JsonV::Str("tool_use"@)));
        assert(get_v(v@, "type"@) != Some(JsonV::Str("text"@)));
        let id = match get(v, "id") {
            Some(JsonValue::Str(s)) => s.clone(),
            _ => return None,
        };
        let name = match get(v, "name") {
            Some(JsonValue::Str(s)) => s.clone(),
            _ => return None,
        };
        let input = match get(v, "input") {
            Some(x) => json_clone(x),
            None => JsonValue::Null,
        };
        let extra = unknown_members_of(m, KeySet::ToolUse);
        Some(ContentBlock::ToolUse { id, name, input, extra })
    } else if eq_str(tag_s, "tool_result") {
        assert(get_v(v@, "type"@) == Some(JsonV::Str("tool_result"@)));
        assert(get_v(v@, "type"@) != Some(JsonV::Str("text"@)));
        assert(get_v(v@, "type"@) != Some(JsonV::Str("tool_use"@)));
        let tool_use_id = match get(v, "tool_use_id") {
            Some(JsonValue::Str(s)) => s.clone(),
            _ => return None,
        };
        let is_error = match get(v, "is_error") {
            None => false,
            Some(JsonValue::Bool(b)) => *b,
            Some(_) => return None,
        };
        let content = match get(v, "content") {
            Some(x) => json_clone(x),
            None => JsonValue::Null,
        };
        let extra = unknown_members_of(m, KeySet::ToolResult);
        Some(ContentBlock::ToolResult { tool_use_id, content, is_error, extra })
    } else {
        assert(get_v(v@, "type"@) != Some(JsonV::Str("text"@)));
        assert(get_v(v@, "type"@) != Some(JsonV::Str("tool_use"@)));
        assert(get_v(v@, "type"@) != Some(JsonV::Str("tool_result"@)));
        None
    }
}


/// Whether a JSON value decodes to a record: an object with a string `type`
/// whose named members each hold a value of their kind (or `null`).
pub open spec fn record_ok(v: JsonV) -> bool {
    &&& v is Object
    &&& get_v(v, "type"@) matches Some(JsonV::Str(_))
    &&& opt_str_ok(get_v(v, "uuid"@))
    &&& opt_str_ok(get_v(v, "parentUuid"@))
    &&& opt_str_ok(get_v(v, "sessionId"@))
    &&& opt_str_ok(get_v(v, "cwd"@))
    &&& opt_str_ok(get_v(v, "timestamp"@))
    &&& opt_str_ok(get_v(v, "version"@))
    &&& opt_str_ok(get_v(v, "gitBranch"@))
    &&& opt_str_ok(get_v(v, "userType"@))
    &&& opt_str_ok(get_v(v, "entrypoint"@))
    &&& opt_str_ok(get_v(v, "permissionMode"@))
    &&& opt_str_ok(get_v(v, "attributionSkill"@))
    &&& opt_str_ok(get_v(v, "attributionAgent"@))
    &&& opt_str_ok(get_v(v, "toolUseId"@))
    &&& opt_bool_ok(get_v(v, "isMeta"@))
    &&& opt_str_ok(get_v(v, "sourceToolUseID"@))
    &&& opt_str_ok(get_v(v, "subtype"@))
}

/// Record `r` is what JSON value `v` decodes to: each named member read by
/// its kind, and every other member carried in `extra`.
pub open spec fn decodes_to(v: JsonV, r: JsonlRecord) -> bool {
    &&& Some(r.record_type@) == opt_str_val(get_v(v, "type"@))
    &&& ostr(r.uuid) == opt_str_val(get_v(v, "uuid"@))
    &&& ostr(r.parent_uuid) == opt_str_val(get_v(v, "parentUuid"@))
    &&& ostr(r.session_id) == opt_str_val(get_v(v, "sessionId"@))
    &&& ostr(r.cwd) == opt_str_val(get_v(v, "cwd"@))
    &&& ostr(r.timestamp) == opt_str_val(get_v(v, "timestamp"@))
    &&& ostr(r.version) == opt_str_val(get_v(v, "version"@))
    &&& ostr(r.git_branch) == opt_str_val(get_v(v, "gitBranch"@))
    &&& ostr(r.user_type) == opt_str_val(get_v(v, "userType"@))
    &&& ostr(r.entrypoint) == opt_str_val(get_v(v, "entrypoint"@))
    &&& ostr(r.permission_mode) == opt_str_val(get_v(v, "permissionMode"@))
    &&& ostr(r.attribution_skill) == opt_str_val(get_v(v, "attributionSkill"@))
    &&& ostr(r.attribution_agent) == opt_str_val(get_v(v, "attributionAgent"@))
    &&& ojson(r.tool_use_result) == opt_json_val(get_v(v, "toolUseResult"@))
    &&& ostr(r.tool_use_id) == opt_str_val(get_v(v, "toolUseId"@))
    &&& r.is_meta == opt_bool_val(get_v(v, "isMeta"@))
    &&& ostr(r.source_tool_use_id) == opt_str_val(get_v(v, "sourceToolUseID"@))
    &&& ojson(r.message) == opt_json_val(get_v(v, "message"@))
    &&& ostr(r.subtype) == opt_str_val(get_v(v, "subtype"@))
    &&& ojson(r.attachment) == opt_json_val(get_v(v, "attachment"@))
    &&& members_view(r.extra@) == unknown_members(v->Object_0, KeySet::Record)
}

fn opt_str_member(v: &JsonValue, key: &str) -> (r: Result<Option<String>, ()>)
    ensures
        match r {
            Ok(x) => opt_str_ok(get_v(v@, key@)) && ostr(x) == opt_str_val(get_v(v@, key@)),
            Err(_) => !opt_str_ok(get_v(v@, key@)),
        },
{
    match get(v, key) {
        None => Ok(None),
        Some(JsonValue::Null) => Ok(None),
        Some(JsonValue::Str(s)) => Ok(Some(s.clone())),
        Some(_) => Err(()),
    }
}

fn opt_json_member(v: &JsonValue, key: &str) -> (r: Option<JsonValue>)
    ensures
        ojson(r) == opt_json_val(get_v(v@, key@)),
{
    match get(v, key) {
        None => None,
        Some(JsonValue::Null) => None,
        Some(x) => Some(json_clone(x)),
    }
}

/// Decodes a record from the JSON value of one log line; `None` where the
/// value is not a record.
pub fn decode_record(v: &JsonValue) -> (r: Option<JsonlRecord>)
    ensures
        match r {
            Some(rec) => record_ok(v@) && decodes_to(v@, rec),
            None => !record_ok(v@),
        },
{
    let m = match v {
        JsonValue::Object(m) => m,
        _ => return None,
    };
    assert(members_view(m@) =~= v@->Object_0);
    let record_type = match get(v, "type") {
        Some(JsonValue::Str(s)) => s.clone(),
        _ => return None,
    };
    let uuid = match opt_str_member(v, "uuid") { Ok(x) => x, Err(_) => return None };
    let parent_uuid = match opt_str_member(v, "parentUuid") { Ok(x) => x, Err(_) => return None };
    let session_id = match opt_str_member(v, "sessionId") { Ok(x) => x, Err(_) => return None };
    let cwd = match opt_str_member(v, "cwd") { Ok(x) => x, Err(_) => return None };
    let timestamp = match opt_str_member(v, "timestamp") { Ok(x) => x, Err(_) => return None };
    let version = match opt_str_member(v, "version") { Ok(x) => x, Err(_) => return None };
    let git_branch = match opt_str_member(v, "gitBranch") { Ok(x) => x, Err(_) => return None };
    let user_type = match opt_str_member(v, "userType") { Ok(x) => x, Err(_) => return None };
    let entrypoint = match opt_str_member(v, "entrypoint") { Ok(x) => x, Err(_) => return None };
    let permission_mode = match opt_str_member(v, "permissionMode") {
        Ok(x) => x,
        Err(_) => return None,
    };
    let attribution_skill = match opt_str_member(v, "attributionSkill") {
        Ok(x) => x,
        Err(_) => return None,
    };
    let attribution_agent = match opt_str_member(v, "attributionAgent") {
        Ok(x) => x,
        Err(_) => return None,
    };
    let tool_use_id = match opt_str_member(v, "toolUseId") { Ok(x) => x, Err(_) => return None };
    let is_meta = match get(v, "isMeta") {
        None => None,
        Some(JsonValue::Null) => None,
        Some(JsonValue::Bool(b)) => Some(*b),
        Some(_) => return None,
    };
    let source_tool_use_id = match opt_str_member(v, "sourceToolUseID") {
        Ok(x) => x,
        Err(_) => return None,
    };
    let subtype = match opt_str_member(v, "subtype") { Ok(x) => x, Err(_) => return None };
    let tool_use_result = opt_json_member(v, "toolUseResult");
    let message = opt_json_member(v, "message");
    let attachment = opt_json_member(v, "attachment");
    let extra = unknown_members_of(m, KeySet::Record);
    Some(
        JsonlRecord {
            record_type,
            uuid,
            parent_uuid,
            session_id,
            cwd,
            timestamp,
            version,
            git_branch,
            user_type,
            entrypoint,
            permission_mode,
            attribution_skill,
            attribution_agent,
            tool_use_result,
            tool_use_id,
            is_meta,
            source_tool_use_id,
            message,
            subtype,
            attachment,
            extra,
        },
    )
}

} // verus!
