use vstd::prelude::*;

verus! {

/// A JSON value as the library reads it. A number keeps the text that the
/// JSON document wrote for it, so that no floating-point value is needed.
#[derive(Debug)]
pub enum JsonValue {
    Null,
    Bool(bool),
    Number(String),
    Text(String),
    Array(Vec<JsonValue>),
    Object(JsonObject),
}

/// One member of a JSON object.
#[derive(Debug)]
pub struct JsonEntry {
    pub key: String,
    pub value: JsonValue,
}

/// A JSON object: its members in document order.
#[derive(Debug)]
pub struct JsonObject {
    pub entries: Vec<JsonEntry>,
}

/// The value of the first member of `entries` whose key is `key`.
pub open spec fn lookup(entries: Seq<JsonEntry>, key: Seq<char>) -> Option<JsonValue>
    decreases entries.len(),
{
    if entries.len() == 0 {
        None
    } else if entries[0].key@ == key {
        Some(entries[0].value)
    } else {
        lookup(entries.drop_first(), key)
    }
}

proof fn lemma_lookup_skip(entries: Seq<JsonEntry>, key: Seq<char>, i: int)
    requires
        0 <= i < entries.len(),
        entries[i].key@ != key,
    ensures
        lookup(entries.skip(i), key) == lookup(entries.skip(i + 1), key),
{
    assert(entries.skip(i).drop_first() =~= entries.skip(i + 1));
}

/// Whether `properties` holds, under `properties`, an object whose `objectId`
/// is the text `id`.
pub open spec fn nested_object_id_is(properties: Option<JsonObject>, id: Seq<char>) -> bool {
    match properties {
        Some(outer) => match lookup(outer.entries@, "properties"@) {
            Some(JsonValue::Object(inner)) => match lookup(inner.entries@, "objectId"@) {
                Some(JsonValue::Text(s)) => s@ == id,
                _ => false,
            },
            _ => false,
        },
        None => false,
    }
}

/// Whether `properties` holds, under `properties`, an object whose `objectId`
/// is the text `id`.
pub fn nested_object_id_equals(properties: &Option<JsonObject>, id: &str) -> (r: bool)
    ensures
        r == nested_object_id_is(*properties, id@),
{
    match properties {
        Some(outer) => match outer.get("properties") {
            Some(JsonValue::Object(inner)) => match inner.get("objectId") {
                Some(JsonValue::Text(s)) => *s == id.to_owned(),
                _ => false,
            },
            _ => false,
        },
        None => false,
    }
}

impl JsonObject {
    /// An object without members.
    pub fn new() -> (r: JsonObject)
        ensures
            r.entries@.len() == 0,
    {
        JsonObject { entries: Vec::new() }
    }

    /// The value stored under `key`, as `serde_json::Map::get` gives it.
    pub fn get(&self, key: &str) -> (r: Option<&JsonValue>)
        ensures
            lookup(self.entries@, key@) == match r {
                Some(v) => Some(*v),
                None => None::<JsonValue>,
            },
    {
        let wanted = key.to_owned();
        let mut i: usize = 0;
        assert(self.entries@.skip(0) =~= self.entries@);
        while i < self.entries.len()
            invariant
                i <= self.entries@.len(),
                wanted@ == key@,
                lookup(self.entries@, key@) == lookup(self.entries@.skip(i as int), key@),
            decreases self.entries@.len() - i,
        {
            if self.entries[i].key == wanted {
                return Some(&self.entries[i].value);
            }
            proof {
                lemma_lookup_skip(self.entries@, key@, i as int);
            }
            i = i + 1;
        }
        None
    }

    /// Moves out the value of the first member named `key`.
    pub fn into_member(self, key: &str) -> (r: Option<JsonValue>)
        ensures
            r == lookup(self.entries@, key@),
    {
        let wanted = key.to_owned();
        let ghost all = self.entries@;
        let entries = self.entries;
        assert(all.skip(0) =~= all);
        for e in it: entries.into_iter()
            invariant
                it.seq() == all,
                all == self.entries@,
                wanted@ == key@,
                lookup(all, key@) == lookup(all.skip(it.index() as int), key@),
        {
            assert(e == all[it.index() as int]);
            if e.key == wanted {
                assert(all.skip(it.index() as int)[0] == e);
                return Some(e.value);
            }
            proof {
                lemma_lookup_skip(all, key@, it.index() as int);
            }
        }
        proof {
            assert(all.skip(all.len() as int) =~= Seq::<JsonEntry>::empty());
        }
        None
    }
}

#[verifier::external_type_specification]
#[verifier::external_body]
pub struct ExSerdeJsonValue(serde_json::Value);

/// What `serde_json::from_str` makes of `text` as a JSON object, converted
/// member by member: `None` where the text is not a JSON object.
pub uninterp spec fn parsed_json_object(text: Seq<char>) -> Option<JsonObject>;

/// `serde_json::from_str` into a `serde_json::Map`: the object that `text`
/// holds, its members converted one for one (numbers by the text that
/// `serde_json` writes for them), or `None` where the text is no JSON object.
/// The contract only names the result as a function of the text.
#[verifier::external_body]
pub(crate) fn parse_json_object(text: &str) -> (r: Option<JsonObject>)
    ensures
        r == parsed_json_object(text@),
{
    serde_json::from_str::<serde_json::Map<String, serde_json::Value>>(text).ok().map(
        |m| JsonObject { entries: m.iter().map(|(k, v)| JsonEntry { key: k.clone(), value: json_from_serde(v) }).collect() },
    )
}

/// The conversion that `parse_json_object` applies to each member value:
/// variant by variant, nested arrays and objects recursively, a number by
/// `serde_json::Number`'s `to_string`. Nothing is claimed of it.
#[verifier::external_body]
fn json_from_serde(v: &serde_json::Value) -> JsonValue {
    match v {
        serde_json::Value::Null => JsonValue::Null,
        serde_json::Value::Bool(b) => JsonValue::Bool(*b),
        serde_json::Value::Number(n) => JsonValue::Number(n.to_string()),
        serde_json::Value::String(t) => JsonValue::Text(t.clone()),
        serde_json::Value::Array(a) => JsonValue::Array(a.iter().map(json_from_serde).collect()),
        serde_json::Value::Object(m) => JsonValue::Object(
            JsonObject { entries: m.iter().map(|(k, x)| JsonEntry { key: k.clone(), value: json_from_serde(x) }).collect() },
        ),
    }
}

} // verus!
