//! A JSON document model: the values that requests and replies carry.

use serde_json::Value;
use vstd::prelude::*;

verus! {

/// A JSON document as `serde_json` parses and writes it.
#[verifier::external_type_specification]
#[verifier::external_body]
pub struct ExDocument(serde_json::Value);

/// The mathematical form of a JSON value: strings and numbers are character
/// sequences (a number is kept as the text that writes it).
pub enum Json {
    Null,
    Bool(bool),
    Number(Seq<char>),
    Str(Seq<char>),
    Array(Seq<Json>),
    Object(Seq<(Seq<char>, Json)>),
}

/// The value of the first member named `key`, where there is one.
pub open spec fn member_named(members: Seq<(Seq<char>, Json)>, key: Seq<char>) -> Option<Json>
    decreases members.len(),
{
    if members.len() == 0 {
        None
    } else if members[0].0 == key {
        Some(members[0].1)
    } else {
        member_named(members.drop_first(), key)
    }
}

/// The lookup finds the first member named `key`: where the member at `i` is
/// named `key` and none before it is, the lookup gives its value; where no
/// member is named `key`, it gives nothing.
pub proof fn lemma_member_named_first(members: Seq<(Seq<char>, Json)>, key: Seq<char>, i: int)
    requires
        0 <= i < members.len(),
        members[i].0 == key,
        forall|j: int| 0 <= j < i ==> #[trigger] members[j].0 != key,
    ensures
        member_named(members, key) == Some(members[i].1),
    decreases i,
{
    if i > 0 {
        let rest = members.drop_first();
        assert forall|j: int| 0 <= j < i - 1 implies #[trigger] rest[j].0 != key by {
            assert(rest[j] == members[j + 1]);
        }
        assert(members[0].0 != key);
        lemma_member_named_first(rest, key, i - 1);
    }
}

/// Where no member is named `key`, the lookup gives nothing.
pub proof fn lemma_member_named_absent(members: Seq<(Seq<char>, Json)>, key: Seq<char>)
    requires
        forall|j: int| 0 <= j < members.len() ==> #[trigger] members[j].0 != key,
    ensures
        member_named(members, key) is None,
    decreases members.len(),
{
    if members.len() > 0 {
        let rest = members.drop_first();
        assert forall|j: int| 0 <= j < rest.len() implies #[trigger] rest[j].0 != key by {
            assert(rest[j] == members[j + 1]);
        }
        assert(members[0].0 != key);
        lemma_member_named_absent(rest, key);
    }
}

impl Json {
    /// The member `key` of an object (nothing, for any other value), as
    /// `serde_json::Value::get` looks it up.
    pub open spec fn get(self, key: Seq<char>) -> Option<Json> {
        match self {
            Json::Object(members) => member_named(members, key),
            _ => None,
        }
    }

    /// The boolean that a value is, where it is one.
    pub open spec fn as_bool(self) -> Option<bool> {
        match self {
            Json::Bool(b) => Some(b),
            _ => None,
        }
    }
}

/// A JSON value as the service holds it. An object lists its members in
/// order, and a lookup by name finds the first member with that name.
#[derive(Debug, PartialEq)]
pub enum JsonValue {
    Null,
    Bool(bool),
    Number(String),
    Str(String),
    Array(Vec<JsonValue>),
    Object(Vec<(String, JsonValue)>),
}

impl View for JsonValue {
    type V = Json;

    open spec fn view(&self) -> Json
        decreases self,
    {
        match self {
            JsonValue::Null => Json::Null,
            JsonValue::Bool(b) => Json::Bool(*b),
            JsonValue::Number(n) => Json::Number(n@),
            JsonValue::Str(s) => Json::Str(s@),
            JsonValue::Array(items) => Json::Array(
                Seq::new(items.len() as nat, |i: int| if 0 <= i < items.len() { items@[i].view() } else { Json::Null }),
            ),
            JsonValue::Object(members) => Json::Object(
                Seq::new(members@.len(), |i: int| Self::member_view(members@, i)),
            ),
        }
    }
}

impl JsonValue {
    /// The mathematical form of the member at position `i`.
    pub open spec fn member_view(members: Seq<(String, JsonValue)>, i: int) -> (Seq<char>, Json)
        decreases members, 0int,
    {
        if 0 <= i < members.len() { (members[i].0@, members[i].1.view()) } else { (Seq::empty(), Json::Null) }
    }
    /// The member `key` of an object (nothing, for any other value).
    pub fn get(&self, key: &String) -> (r: Option<&JsonValue>)
        ensures
            match r {
                Some(v) => self@.get(key@) == Some(v@),
                None => self@.get(key@) is None,
            },
    {
        match self {
            JsonValue::Object(members) => {
                let ghost view_members = self@->Object_0;
                assert(view_members.skip(0) =~= view_members);
                let mut i: usize = 0;
                while i < members.len()
                    invariant
                        *self == JsonValue::Object(*members),
                        view_members == self@->Object_0,
                        view_members.len() == members.len(),
                        i <= members.len(),
                        self@.get(key@) == member_named(view_members.skip(i as int), key@),
                    decreases members.len() - i,
                {
                    assert(Self::member_view(members@, i as int) == (members@[i as int].0@, members@[i as int].1@));
                    assert(view_members.skip(i as int)[0] == view_members[i as int]);
                    assert(view_members.skip(i as int).drop_first() =~= view_members.skip(i + 1));
                    if members[i].0 == *key {
                        return Some(&members[i].1);
                    }
                    i = i + 1;
                }
                None
            },
            _ => None,
        }
    }

    /// The object with the one member `k1`.
    pub fn object1(k1: &str, v1: JsonValue) -> (obj: JsonValue)
        ensures
            obj@ == Json::Object(seq![(k1@, v1@)]),
    {
        let mut members: Vec<(String, JsonValue)> = Vec::new();
        members.push((k1.to_owned(), v1));
        let obj = JsonValue::Object(members);
        assert(Self::member_view(members@, 0) == (members@[0].0@, members@[0].1@));
        assert(obj@->Object_0 =~= seq![(k1@, v1@)]);
        obj
    }

    /// The object with the members `k1` and `k2`, in this order.
    pub fn object2(k1: &str, v1: JsonValue, k2: &str, v2: JsonValue) -> (obj: JsonValue)
        ensures
            obj@ == Json::Object(seq![(k1@, v1@), (k2@, v2@)]),
    {
        let mut members: Vec<(String, JsonValue)> = Vec::new();
        members.push((k1.to_owned(), v1));
        members.push((k2.to_owned(), v2));
        let obj = JsonValue::Object(members);
        assert(Self::member_view(members@, 0) == (members@[0].0@, members@[0].1@));
        assert(Self::member_view(members@, 1) == (members@[1].0@, members@[1].1@));
        assert(obj@->Object_0 =~= seq![(k1@, v1@), (k2@, v2@)]);
        obj
    }

    /// The object with the members `k1`, `k2` and `k3`, in this order.
    pub fn object3(k1: &str, v1: JsonValue, k2: &str, v2: JsonValue, k3: &str, v3: JsonValue) -> (obj: JsonValue)
        ensures
            obj@ == Json::Object(seq![(k1@, v1@), (k2@, v2@), (k3@, v3@)]),
    {
        let mut members: Vec<(String, JsonValue)> = Vec::new();
        members.push((k1.to_owned(), v1));
        members.push((k2.to_owned(), v2));
        members.push((k3.to_owned(), v3));
        let obj = JsonValue::Object(members);
        assert(Self::member_view(members@, 0) == (members@[0].0@, members@[0].1@));
        assert(Self::member_view(members@, 1) == (members@[1].0@, members@[1].1@));
        assert(Self::member_view(members@, 2) == (members@[2].0@, members@[2].1@));
        assert(obj@->Object_0 =~= seq![(k1@, v1@), (k2@, v2@), (k3@, v3@)]);
        obj
    }

    /// The string value `s`.
    pub fn string(s: &str) -> (v: JsonValue)
        ensures
            v@ == Json::Str(s@),
    {
        JsonValue::Str(s.to_owned())
    }

    /// The boolean that the value is, where it is one.
    pub fn as_bool(&self) -> (r: Option<bool>)
        ensures
            r == self@.as_bool(),
    {
        match self {
            JsonValue::Bool(b) => Some(*b),
            _ => None,
        }
    }

    /// A copy of the value, equal to it member by member.
    pub fn duplicate(&self) -> (copy: JsonValue)
        ensures
            copy@ == self@,
        decreases self,
    {
        match self {
            JsonValue::Null => JsonValue::Null,
            JsonValue::Bool(b) => JsonValue::Bool(*b),
            JsonValue::Number(n) => JsonValue::Number(n.clone()),
            JsonValue::Str(s) => JsonValue::Str(s.clone()),
            JsonValue::Array(items) => {
                let mut out: Vec<JsonValue> = Vec::new();
                let mut i: usize = 0;
                while i < items.len()
                    invariant
                        *self == JsonValue::Array(*items),
                        i <= items.len(),
                        out.len() == i,
                        forall|j: int| 0 <= j < i ==> #[trigger] out@[j]@ == items@[j]@,
                    decreases items.len() - i,
                {
                    proof {
                        assert(decreases_to!(*self => self->Array_0));
                        assert(decreases_to!(*items => items@));
                        assert(decreases_to!(items@ => items@[i as int]));
                    }
                    let item = items[i].duplicate();
                    out.push(item);
                    i = i + 1;
                }
                let copy = JsonValue::Array(out);
                assert forall|j: int| 0 <= j < out.len() implies #[trigger] copy@->Array_0[j] == self@->Array_0[j] by {
                    assert(out@[j]@ == items@[j]@);
                }
                assert(copy@->Array_0 =~= self@->Array_0);
                copy
            },
            JsonValue::Object(members) => {
                let mut out: Vec<(String, JsonValue)> = Vec::new();
                let mut i: usize = 0;
                while i < members.len()
                    invariant
                        *self == JsonValue::Object(*members),
                        i <= members.len(),
                        out.len() == i,
                        forall|j: int| #![trigger out@[j]] 0 <= j < i ==> out@[j].0@ == members@[j].0@ && out@[j].1@ == members@[j].1@,
                    decreases members.len() - i,
                {
                    let key = members[i].0.clone();
                    proof {
                        assert(decreases_to!(*self => self->Object_0));
                        assert(decreases_to!(*members => members@));
                        assert(decreases_to!(members@ => members@[i as int]));
                        assert(decreases_to!(members@[i as int] => members@[i as int].1));
                    }
                    let value = members[i].1.duplicate();
                    out.push((key, value));
                    i = i + 1;
                }
                let copy = JsonValue::Object(out);
                assert forall|j: int| 0 <= j < out.len() implies #[trigger] copy@->Object_0[j] == self@->Object_0[j] by {
                    assert(out@[j].0@ == members@[j].0@ && out@[j].1@ == members@[j].1@);
                    assert(Self::member_view(out@, j) == (out@[j].0@, out@[j].1@));
                    assert(Self::member_view(members@, j) == (members@[j].0@, members@[j].1@));
                }
                assert(copy@->Object_0 =~= self@->Object_0);
                copy
            },
        }
    }
}

/// Converts a `serde_json::Value` into the service's form, variant by variant;
/// a number is kept as the text that `serde_json::Number`'s `Display` writes.
/// Nothing is stated of it on its own: [`parse_json`] names the whole result.
#[verifier::external_body]
fn from_document(doc: Value) -> JsonValue {
    match doc {
        Value::Null => JsonValue::Null,
        Value::Bool(b) => JsonValue::Bool(b),
        Value::Number(n) => JsonValue::Number(n.to_string()),
        Value::String(s) => JsonValue::Str(s),
        Value::Array(items) => JsonValue::Array(items.into_iter().map(from_document).collect()),
        Value::Object(m) => JsonValue::Object(m.into_iter().map(|(k, v)| (k, from_document(v))).collect()),
    }
}

/// Converts the service's form into a `serde_json::Value`, variant by variant;
/// a number's text is read back with `serde_json::Number`'s `FromStr`, and an
/// object's members are inserted in order into a `serde_json::Map`. Nothing is
/// stated of it on its own: [`write_json`] names the whole result.
#[verifier::external_body]
fn to_document(v: &JsonValue) -> Value {
    match v {
        JsonValue::Null => Value::Null,
        JsonValue::Bool(b) => Value::Bool(*b),
        JsonValue::Number(n) => n.parse::<serde_json::Number>().map_or(Value::Null, Value::Number),
        JsonValue::Str(s) => Value::String(s.clone()),
        JsonValue::Array(items) => Value::Array(items.iter().map(to_document).collect()),
        JsonValue::Object(m) => Value::Object(m.iter().map(|(k, v)| (k.clone(), to_document(v))).collect()),
    }
}

/// The document that `serde_json::from_str::<serde_json::Value>` parses from
/// `text`, in the service's form; nothing where the text is not JSON.
pub uninterp spec fn parsed_json(text: Seq<char>) -> Option<Json>;

/// A member name that JSON writes between quotes as it stands: ASCII letters,
/// digits and underscores, at least one.
pub open spec fn plain_name(k: Seq<char>) -> bool {
    &&& k.len() > 0
    &&& forall|i: int|
        0 <= i < k.len() ==> ('a' <= #[trigger] k[i] <= 'z') || ('A' <= k[i] <= 'Z') || ('0' <= k[i]
            <= '9') || k[i] == '_'
}

/// The JSON text of a boolean.
pub open spec fn bool_text(b: bool) -> Seq<char> {
    if b {
        "true"@
    } else {
        "false"@
    }
}

/// The compact JSON text of an object with the one member `k` whose value is
/// written `value_text`: `{"k":value_text}`.
pub open spec fn one_member_text(k: Seq<char>, value_text: Seq<char>) -> Seq<char> {
    "{\""@ + k + "\":"@ + value_text + "}"@
}

/// Parses a JSON text with `serde_json::from_str::<serde_json::Value>`; the
/// result is named by [`parsed_json`]. Beside the name it states what the
/// parser gives for `true`, `false`, `null`, and for the compact text of an
/// object with one plainly named boolean member: the object with that member.
#[verifier::external_body]
pub(crate) fn parse_json(text: &str) -> (doc: Option<JsonValue>)
    ensures
        match doc {
            Some(j) => parsed_json(text@) == Some(j@),
            None => parsed_json(text@) is None,
        },
        text@ == "true"@ ==> doc is Some && doc->0@ == Json::Bool(true),
        text@ == "false"@ ==> doc is Some && doc->0@ == Json::Bool(false),
        text@ == "null"@ ==> doc is Some && doc->0@ == Json::Null,
        forall|k: Seq<char>, b: bool|
            #![trigger one_member_text(k, bool_text(b))]
            plain_name(k) && text@ == one_member_text(k, bool_text(b)) ==> doc is Some && doc->0@
                == Json::Object(seq![(k, Json::Bool(b))]),
{
    match serde_json::from_str::<Value>(text) {
        Ok(doc) => Some(from_document(doc)),
        Err(_) => None,
    }
}

/// The compact JSON text that `serde_json::Value`'s `to_string` writes for `v`.
pub uninterp spec fn json_text(v: Json) -> Seq<char>;

/// Writes a value as compact JSON text with `serde_json::Value`'s
/// `to_string`; the result is named by [`json_text`]. Beside the name it
/// states the text of a boolean, of `null`, and of an object with one plainly
/// named boolean member (`{"k":true}`, with no white space).
#[verifier::external_body]
pub(crate) fn write_json(v: &JsonValue) -> (text: String)
    ensures
        text@ == json_text(v@),
        v@ matches Json::Bool(b) ==> text@ == bool_text(b),
        v@ is Null ==> text@ == "null"@,
        (v@ is Object && v@->Object_0.len() == 1 && plain_name(v@->Object_0[0].0)
            && v@->Object_0[0].1 is Bool) ==> text@ == one_member_text(
            v@->Object_0[0].0,
            bool_text(v@->Object_0[0].1->Bool_0),
        ),
{
    to_document(v).to_string()
}

} // verus!
