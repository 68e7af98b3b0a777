//! A JSON document as the installer reads and edits it.
//!
//! Objects keep their members in order, as a list of `(key, value)` pairs;
//! numbers keep their JSON text. Documents are read from text and written
//! back to text by `serde_json`: written back, a document is laid out as
//! `serde_json` pretty-prints it (its own indentation, member order and
//! number writing), not as the file first held it.
use vstd::prelude::*;

verus! {

/// A JSON value.
#[derive(Debug, PartialEq)]
pub enum Json {
    Null,
    Bool(bool),
    /// A number, by its JSON text (`16`, `-2.5e3`, ...).
    Number(String),
    Str(String),
    Array(Vec<Json>),
    /// The members of an object, in order.
    Object(Vec<(String, Json)>),
}

/// The mathematical model of a [`Json`] value.
pub enum JsonV {
    Null,
    Bool(bool),
    Number(Seq<char>),
    Str(Seq<char>),
    Array(Seq<JsonV>),
    Object(Seq<(Seq<char>, JsonV)>),
}

pub open spec fn json_view(j: Json) -> JsonV
    decreases j, 1int,
{
    match j {
        Json::Null => JsonV::Null,
        Json::Bool(b) => JsonV::Bool(b),
        Json::Number(n) => JsonV::Number(n@),
        Json::Str(s) => JsonV::Str(s@),
        Json::Array(a) => JsonV::Array(items_view(a@)),
        Json::Object(f) => JsonV::Object(fields_view(f@)),
    }
}

pub open spec fn items_view(s: Seq<Json>) -> Seq<JsonV>
    decreases s, 0int,
{
    if s.len() == 0 {
        Seq::empty()
    } else {
        items_view(s.drop_last()).push(json_view(s.last()))
    }
}

pub open spec fn fields_view(s: Seq<(String, Json)>) -> Seq<(Seq<char>, JsonV)>
    decreases s, 0int,
{
    if s.len() == 0 {
        Seq::empty()
    } else {
        fields_view(s.drop_last()).push((s.last().0@, json_view(s.last().1)))
    }
}

impl View for Json {
    type V = JsonV;

    open spec fn view(&self) -> JsonV {
        json_view(*self)
    }
}

/// The model of a list of values is the list of their models.
pub proof fn lemma_items_view(s: Seq<Json>)
    ensures
        items_view(s).len() == s.len(),
        forall|i: int| 0 <= i < s.len() ==> #[trigger] items_view(s)[i] == json_view(s[i]),
    decreases s.len(),
{
    if s.len() > 0 {
        lemma_items_view(s.drop_last());
    }
}

/// The model of a list of members is the list of their models.
pub proof fn lemma_fields_view(s: Seq<(String, Json)>)
    ensures
        fields_view(s).len() == s.len(),
        forall|i: int|
            0 <= i < s.len() ==> #[trigger] fields_view(s)[i] == (s[i].0@, json_view(s[i].1)),
    decreases s.len(),
{
    if s.len() > 0 {
        lemma_fields_view(s.drop_last());
    }
}

/// Index of the first member of `fields` whose key is `key`, or -1.
pub open spec fn field_index(fields: Seq<(Seq<char>, JsonV)>, key: Seq<char>) -> int {
    if exists|i: int| 0 <= i < fields.len() && fields[i].0 == key {
        choose|i: int| first_key_at(fields, key, i)
    } else {
        -1
    }
}

/// `i` is the first position of `key` among the keys of `fields`.
pub open spec fn first_key_at(fields: Seq<(Seq<char>, JsonV)>, key: Seq<char>, i: int) -> bool {
    &&& 0 <= i < fields.len()
    &&& fields[i].0 == key
    &&& forall|j: int| 0 <= j < i ==> fields[j].0 != key
}

/// The first position of a key is unique, and it is what `field_index` gives.
pub proof fn lemma_field_index(fields: Seq<(Seq<char>, JsonV)>, key: Seq<char>, i: int)
    requires
        first_key_at(fields, key, i),
    ensures
        field_index(fields, key) == i,
{
    let k = choose|k: int| first_key_at(fields, key, k);
    assert(first_key_at(fields, key, k));
    if k < i {
        assert(fields[k].0 != key);
    }
    if i < k {
        assert(fields[i].0 != key);
    }
}

/// A key that occurs nowhere has no position.
pub proof fn lemma_field_index_absent(fields: Seq<(Seq<char>, JsonV)>, key: Seq<char>)
    requires
        forall|j: int| 0 <= j < fields.len() ==> fields[j].0 != key,
    ensures
        field_index(fields, key) == -1,
{
}

/// Every key that occurs has a first position.
pub proof fn lemma_field_index_present(fields: Seq<(Seq<char>, JsonV)>, key: Seq<char>)
    requires
        exists|i: int| 0 <= i < fields.len() && fields[i].0 == key,
    ensures
        first_key_at(fields, key, field_index(fields, key)),
    decreases fields.len(),
{
    let i = choose|i: int| 0 <= i < fields.len() && fields[i].0 == key;
    if exists|j: int| 0 <= j < i && fields[j].0 == key {
        let pre = fields.take(i);
        let j = choose|j: int| 0 <= j < i && fields[j].0 == key;
        assert(pre[j].0 == key);
        lemma_field_index_present(pre, key);
        let k = field_index(pre, key);
        assert forall|m: int| 0 <= m < k implies fields[m].0 != key by {
            assert(pre[m] == fields[m]);
        }
        assert(pre[k] == fields[k]);
        assert(first_key_at(fields, key, k));
        lemma_field_index(fields, key, k);
    } else {
        assert(first_key_at(fields, key, i));
        lemma_field_index(fields, key, i);
    }
}

/// The value of the member `key` of an object, if it has one.
pub open spec fn member(doc: JsonV, key: Seq<char>) -> Option<JsonV> {
    match doc {
        JsonV::Object(fields) => {
            let i = field_index(fields, key);
            if i >= 0 {
                Some(fields[i].1)
            } else {
                None
            }
        },
        _ => None,
    }
}

/// The items of the member `key` of an object, if that member is an array.
pub open spec fn array_member(doc: JsonV, key: Seq<char>) -> Option<Seq<JsonV>> {
    match member(doc, key) {
        Some(JsonV::Array(items)) => Some(items),
        _ => None,
    }
}

/// `doc` with the member `key` (which it has) holding the array `items`.
pub open spec fn with_array_member(doc: JsonV, key: Seq<char>, items: Seq<JsonV>) -> JsonV {
    match doc {
        JsonV::Object(fields) => {
            let i = field_index(fields, key);
            JsonV::Object(fields.update(i, (key, JsonV::Array(items))))
        },
        _ => doc,
    }
}

/// Replacing the value of a member leaves every key where it was.
pub proof fn lemma_keys_after_update(
    fields: Seq<(Seq<char>, JsonV)>,
    i: int,
    value: JsonV,
    key: Seq<char>,
)
    requires
        0 <= i < fields.len(),
    ensures
        field_index(fields.update(i, (fields[i].0, value)), key) == field_index(fields, key),
{
    let g = fields.update(i, (fields[i].0, value));
    if exists|j: int| 0 <= j < fields.len() && fields[j].0 == key {
        lemma_field_index_present(fields, key);
        let k = field_index(fields, key);
        assert(first_key_at(g, key, k));
        lemma_field_index(g, key, k);
    } else {
        assert forall|j: int| 0 <= j < g.len() implies g[j].0 != key by {
            assert(g[j].0 == fields[j].0);
        }
    }
}

/// Where to find `key` among the members of an object: the loop that
/// `field_index` describes.
pub fn find_member(fields: &Vec<(String, Json)>, key: &String) -> (r: Option<usize>)
    ensures
        match r {
            Some(i) => i < fields@.len() && fields@[i as int].0@ == key@ && field_index(
                fields_view(fields@),
                key@,
            ) == i as int,
            None => field_index(fields_view(fields@), key@) == -1,
        },
{
    proof {
        lemma_fields_view(fields@);
    }
    let ghost fv = fields_view(fields@);
    let mut i: usize = 0;
    while i < fields.len()
        invariant
            i <= fields.len(),
            fv == fields_view(fields@),
            fv.len() == fields@.len(),
            forall|j: int| 0 <= j < fields@.len() ==> #[trigger] fv[j] == (fields@[j].0@, json_view(fields@[j].1)),
            forall|j: int| 0 <= j < i ==> fv[j].0 != key@,
        decreases fields.len() - i,
    {
        if fields[i].0 == *key {
            proof {
                assert(first_key_at(fv, key@, i as int));
                lemma_field_index(fv, key@, i as int);
            }
            return Some(i);
        }
        i = i + 1;
    }
    proof {
        lemma_field_index_absent(fv, key@);
    }
    None
}

/// `serde_json`'s document type, which the reader and the printer work on.
#[verifier::external_type_specification]
#[verifier::external_body]
pub struct ExJsonValue(serde_json::Value);

/// `serde_json`'s error type, which the number reader gives.
#[verifier::external_type_specification]
#[verifier::external_body]
pub struct ExJsonError(serde_json::Error);

/// The document that `serde_json::from_str` reads from a text, in this
/// library's terms, or the message of its error.
pub uninterp spec fn json_parse_result(text: Seq<char>) -> Result<JsonV, Seq<char>>;

/// The text that `serde_json::to_string_pretty` writes for a document, or the
/// message of the error met on the way (a number whose text is not a JSON
/// number).
pub uninterp spec fn json_render_result(doc: JsonV) -> Result<Seq<char>, Seq<char>>;

/// Turns a `serde_json` document into this library's: one variant for one,
/// numbers by their text, object members in the order the map yields them.
#[verifier::external_body]
fn json_of_value(v: serde_json::Value) -> Json {
    match v {
        serde_json::Value::Null => Json::Null,
        serde_json::Value::Bool(b) => Json::Bool(b),
        serde_json::Value::Number(n) => Json::Number(n.to_string()),
        serde_json::Value::String(s) => Json::Str(s),
        serde_json::Value::Array(a) => Json::Array(a.into_iter().map(json_of_value).collect()),
        serde_json::Value::Object(m) => Json::Object(m.into_iter().map(|(k, v)| (k, json_of_value(v))).collect()),
    }
}

/// Turns this library's document into a `serde_json` one: one variant for
/// one, numbers read back from their text (the error of a text that is no
/// JSON number), members inserted in order.
#[verifier::external_body]
fn value_of_json(j: Json) -> Result<serde_json::Value, serde_json::Error> {
    Ok(match j {
        Json::Null => serde_json::Value::Null,
        Json::Bool(b) => serde_json::Value::Bool(b),
        Json::Number(n) => serde_json::Value::Number(n.parse()?),
        Json::Str(s) => serde_json::Value::String(s),
        Json::Array(a) => serde_json::Value::Array(a.into_iter().map(value_of_json).collect::<Result<_, _>>()?),
        Json::Object(f) => serde_json::Value::Object(f.into_iter().map(|(k, v)| Ok((k, value_of_json(v)?))).collect::<Result<_, serde_json::Error>>()?),
    })
}

/// Reads a JSON text with `serde_json::from_str`: the document, or the
/// parser's message. The contract claims only that the outcome depends on
/// the text alone; what the parser accepts is `serde_json`'s.
#[verifier::external_body]
pub(crate) fn parse_json_text(text: &str) -> (r: Result<Json, String>)
    ensures
        match r {
            Ok(d) => json_parse_result(text@) == Ok::<JsonV, Seq<char>>(d@),
            Err(m) => json_parse_result(text@) == Err::<JsonV, Seq<char>>(m@),
        },
{
    match serde_json::from_str::<serde_json::Value>(text) {
        Ok(v) => Ok(json_of_value(v)),
        Err(e) => Err(e.to_string()),
    }
}

/// Writes a document as pretty JSON with `serde_json::to_string_pretty`: the
/// text, or the message of the error met. The contract claims only that the
/// outcome depends on the document (by its model) alone; the layout is
/// `serde_json`'s.
#[verifier::external_body]
pub(crate) fn render_json_pretty(doc: Json) -> (r: Result<String, String>)
    ensures
        match r {
            Ok(t) => json_render_result(doc@) == Ok::<Seq<char>, Seq<char>>(t@),
            Err(m) => json_render_result(doc@) == Err::<Seq<char>, Seq<char>>(m@),
        },
{
    match value_of_json(doc).and_then(|v| serde_json::to_string_pretty(&v)) {
        Ok(t) => Ok(t),
        Err(e) => Err(e.to_string()),
    }
}

} // verus!
