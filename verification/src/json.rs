use vstd::prelude::*;

verus! {

/// A JSON number as the ingestion logic reads it: its value as a 64-bit
/// signed integer where it is one, as a 64-bit unsigned integer where it is
/// one, and the IEEE-754 bit pattern of its value as a 64-bit float where it
/// has one.
#[derive(Debug, Clone, Copy, PartialEq, Eq, Structural)]
pub struct JsonNumber {
    pub as_i64: Option<i64>,
    pub as_u64: Option<u64>,
    pub as_f64_bits: Option<u64>,
}

/// A parsed JSON document. Object entries keep the order of the source map.
#[derive(Debug)]
pub enum JsonValue {
    Null,
    Bool(bool),
    /// A number: its readings, and its JSON text as the parser wrote it.
    Number(JsonNumber, String),
    String(String),
    Array(Vec<JsonValue>),
    Object(Vec<(String, JsonValue)>),
}

/// Mathematical model of a JSON document.
pub enum JsonView {
    Null,
    Bool(bool),
    Number(JsonNumber, Seq<char>),
    Str(Seq<char>),
    Array(Seq<JsonView>),
    Object(Seq<(Seq<char>, JsonView)>),
}

impl JsonValue {
    pub open spec fn view(&self) -> JsonView
        decreases self,
    {
        match self {
            JsonValue::Null => JsonView::Null,
            JsonValue::Bool(b) => JsonView::Bool(*b),
            JsonValue::Number(n, t) => JsonView::Number(*n, t@),
            JsonValue::String(s) => JsonView::Str(s@),
            JsonValue::Array(items) => JsonView::Array(
                Seq::new(items.len() as nat, |i: int| if 0 <= i < items.len() { items[i].view() } else { JsonView::Null }),
            ),
            JsonValue::Object(entries) => JsonView::Object(
                Seq::new(entries.len() as nat, |i: int| if 0 <= i < entries.len() { (entries[i].0@, entries[i].1.view()) } else { (Seq::empty(), JsonView::Null) }),
            ),
        }
    }
}


/// The models of a sequence of documents.
pub open spec fn views(s: Seq<JsonValue>) -> Seq<JsonView> {
    s.map_values(|v: JsonValue| v@)
}

/// The model of an optional borrowed document.
pub open spec fn opt_view(v: Option<&JsonValue>) -> Option<JsonView> {
    match v {
        Some(x) => Some(x@),
        None => None,
    }
}

/// The items of an array, as the model of the document reads them.
pub proof fn lemma_array_view(items: Vec<JsonValue>)
    ensures
        JsonValue::Array(items)@ == JsonView::Array(views(items@)),
{
    assert(JsonValue::Array(items)@->Array_0 =~= views(items@));
}

/// The entry value of the first entry whose key is `key`.
pub open spec fn lookup(entries: Seq<(Seq<char>, JsonView)>, key: Seq<char>) -> Option<JsonView>
    decreases entries.len(),
{
    if entries.len() == 0 {
        None
    } else if entries[0].0 == key {
        Some(entries[0].1)
    } else {
        lookup(entries.drop_first(), key)
    }
}

/// What `Value::get` gives on a document: a field of an object, nothing otherwise.
pub open spec fn get_field(v: JsonView, key: Seq<char>) -> Option<JsonView> {
    match v {
        JsonView::Object(entries) => lookup(entries, key),
        _ => None,
    }
}

/// The name of a document's kind, as error messages spell it.
pub open spec fn kind_name(v: JsonView) -> Seq<char> {
    match v {
        JsonView::Null => "null"@,
        JsonView::Bool(_) => "boolean"@,
        JsonView::Number(..) => "number"@,
        JsonView::Str(_) => "string"@,
        JsonView::Array(_) => "array"@,
        JsonView::Object(_) => "object"@,
    }
}

/// The name of the document's kind.
pub fn json_type(v: &JsonValue) -> (r: &'static str)
    ensures
        r@ == kind_name(v@),
{
    match v {
        JsonValue::Null => "null",
        JsonValue::Bool(_) => "boolean",
        JsonValue::Number(..) => "number",
        JsonValue::String(_) => "string",
        JsonValue::Array(_) => "array",
        JsonValue::Object(_) => "object",
    }
}

/// Finds the first entry of an object whose key is `key`.
pub fn object_get<'a>(entries: &'a Vec<(String, JsonValue)>, key: &String) -> (r: Option<&'a JsonValue>)
    ensures
        r is None <==> lookup(JsonValue::Object(*entries)@->Object_0, key@) is None,
        r matches Some(v) ==> lookup(JsonValue::Object(*entries)@->Object_0, key@) == Some(v@),
{
    let ghost view = JsonValue::Object(*entries)@->Object_0;
    assert(view.skip(0) =~= view);
    let mut i: usize = 0;
    while i < entries.len()
        invariant
            0 <= i <= entries.len(),
            view == JsonValue::Object(*entries)@->Object_0,
            view.len() == entries.len(),
            forall|j: int| 0 <= j < entries.len() ==> #[trigger] view[j] == (entries[j].0@, entries[j].1@),
            lookup(view, key@) == lookup(view.skip(i as int), key@),
        decreases entries.len() - i,
    {
        assert(view.skip(i as int).drop_first() =~= view.skip(i as int + 1));
        if entries[i].0 == *key {
            return Some(&entries[i].1);
        }
        i = i + 1;
    }
    None
}

/// The field `key` of a document that is an object; nothing for any other document.
pub fn get_field_of<'a>(v: &'a JsonValue, key: &String) -> (r: Option<&'a JsonValue>)
    ensures
        opt_view(r) == get_field(v@, key@),
{
    match v {
        JsonValue::Object(entries) => object_get(entries, key),
        _ => None,
    }
}

impl Clone for JsonValue {
    /// A copy of the document with the same contents.
    fn clone(&self) -> (r: JsonValue)
        ensures
            r@ == self@,
    {
        self.deep_copy()
    }
}

impl JsonValue {
    /// A copy of the document with the same contents.
    pub fn deep_copy(&self) -> (r: JsonValue)
        ensures
            r@ == self@,
        decreases self,
    {
        match self {
            JsonValue::Null => JsonValue::Null,
            JsonValue::Bool(b) => JsonValue::Bool(*b),
            JsonValue::Number(n, t) => JsonValue::Number(*n, t.clone()),
            JsonValue::String(s) => JsonValue::String(s.clone()),
            JsonValue::Array(items) => {
                let mut out: Vec<JsonValue> = Vec::new();
                let mut i: usize = 0;
                while i < items.len()
                    invariant
                        *self == JsonValue::Array(*items),
                        0 <= i <= items.len(),
                        out.len() == i,
                        forall|j: int| 0 <= j < i ==> #[trigger] out[j]@ == items[j]@,
                    decreases items.len() - i,
                {
                    proof {
                        assert(decreases_to!(*self => (*self)->Array_0));
                        assert(decreases_to!(*items => items[i as int]));
                    }
                    out.push(items[i].deep_copy());
                    i = i + 1;
                }
                let r = JsonValue::Array(out);
                assert forall|j: int| 0 <= j < out.len() implies #[trigger] r@->Array_0[j] == self@->Array_0[j] by {
                    assert(out[j]@ == items[j]@);
                }
                assert(r@->Array_0 =~= self@->Array_0);
                r
            },
            JsonValue::Object(entries) => {
                let mut out: Vec<(String, JsonValue)> = Vec::new();
                let mut i: usize = 0;
                while i < entries.len()
                    invariant
                        *self == JsonValue::Object(*entries),
                        0 <= i <= entries.len(),
                        out.len() == i,
                        forall|j: int| 0 <= j < i ==> (#[trigger] out[j]).0@ == entries[j].0@ && out[j].1@ == entries[j].1@,
                    decreases entries.len() - i,
                {
                    proof {
                        assert(decreases_to!(*self => (*self)->Object_0));
                        assert(decreases_to!(*entries => entries[i as int]));
                        assert(decreases_to!(entries[i as int] => entries[i as int].1));
                    }
                    let v = entries[i].1.deep_copy();
                    out.push((entries[i].0.clone(), v));
                    i = i + 1;
                }
                let r = JsonValue::Object(out);
                assert forall|j: int| 0 <= j < out.len() implies #[trigger] r@->Object_0[j] == self@->Object_0[j] by {
                    assert(out[j].0@ == entries[j].0@);
                    assert(out[j].1@ == entries[j].1@);
                }
                assert(r@->Object_0 =~= self@->Object_0);
                r
            },
        }
    }
}

// ---------------------------------------------------------------------------
// Parsing bytes with serde_json
// ---------------------------------------------------------------------------

/// What `serde_json::from_slice` makes of a byte string: the parsed document,
/// taken in this library's model, or the text of the parser's error.
pub uninterp spec fn spec_parse_json(body: Seq<u8>) -> Result<JsonView, Seq<char>>;

/// A JSON document as the `serde_json` crate holds it.
#[verifier::external_type_specification]
#[verifier::external_body]
pub struct ExSerdeJsonValue(serde_json::Value);

/// `serde_json::from_slice::<serde_json::Value>` on the bytes, the document
/// converted into this library's model; on failure, the `Display` text of
/// `serde_json::Error`. The outcome depends on the bytes alone; the contract
/// names it and states nothing more of the parser.
#[verifier::external_body]
pub(crate) fn parse_json(body: &[u8]) -> (r: Result<JsonValue, String>)
    ensures
        match r {
            Ok(v) => spec_parse_json(body@) == Ok::<JsonView, Seq<char>>(v@),
            Err(m) => spec_parse_json(body@) == Err::<JsonView, Seq<char>>(m@),
        },
{
    match serde_json::from_slice::<serde_json::Value>(body) {
        Ok(v) => Ok(from_serde(v)),
        Err(e) => Err(e.to_string()),
    }
}

/// The conversion inside `parse_json`: each variant of `serde_json::Value`
/// to the variant of the same name, a number to its readings as `i64`, as
/// `u64` and as the bits of its float value (`serde_json::Number::as_i64`,
/// `as_u64`, `as_f64`). Nothing is stated of it on its own.
#[verifier::external_body]
fn from_serde(v: serde_json::Value) -> (r: JsonValue) {
    match v {
        serde_json::Value::Null => JsonValue::Null,
        serde_json::Value::Bool(b) => JsonValue::Bool(b),
        serde_json::Value::Number(n) => JsonValue::Number(
            JsonNumber { as_i64: n.as_i64(), as_u64: n.as_u64(), as_f64_bits: n.as_f64().map(|x| x.to_bits()) },
            n.to_string(),
        ),
        serde_json::Value::String(s) => JsonValue::String(s),
        serde_json::Value::Array(a) => JsonValue::Array(a.into_iter().map(from_serde).collect()),
        serde_json::Value::Object(m) => JsonValue::Object(m.into_iter().map(|(k, x)| (k, from_serde(x))).collect()),
    }
}

// ---------------------------------------------------------------------------
// Writing JSON text with serde_json
// ---------------------------------------------------------------------------

/// What `serde_json::to_string` writes for a document: the document rebuilt
/// as a `serde_json::Value`, each number read back from its text.
pub uninterp spec fn spec_json_text(v: JsonView) -> Seq<char>;

/// `serde_json::to_string` of the document, rebuilt as a `serde_json::Value`
/// (on the writer's error, which a value with string keys does not give, the
/// error's text). The text depends on the document alone; the contract names
/// it and states nothing more of the writer.
#[verifier::external_body]
pub(crate) fn json_text(v: &JsonValue) -> (r: String)
    ensures
        r@ == spec_json_text(v@),
{
    match serde_json::to_string(&to_serde(v)) {
        Ok(t) => t,
        Err(e) => e.to_string(),
    }
}

/// The conversion inside `json_text`: each variant to the `serde_json::Value`
/// variant of the same name, a number read from its text by
/// `serde_json::Number`'s `FromStr` (a text that does not read as a number
/// becomes `null`; the texts `parse_json` keeps always read). Nothing is
/// stated of it on its own.
#[verifier::external_body]
fn to_serde(v: &JsonValue) -> (r: serde_json::Value) {
    match v {
        JsonValue::Null => serde_json::Value::Null,
        JsonValue::Bool(b) => serde_json::Value::Bool(*b),
        JsonValue::Number(_, t) => match t.parse::<serde_json::Number>() {
            Ok(n) => serde_json::Value::Number(n),
            Err(_) => serde_json::Value::Null,
        },
        JsonValue::String(s) => serde_json::Value::String(s.clone()),
        JsonValue::Array(a) => serde_json::Value::Array(a.iter().map(to_serde).collect()),
        JsonValue::Object(e) => serde_json::Value::Object(e.iter().map(|(k, x)| (k.clone(), to_serde(x))).collect()),
    }
}

} // verus!
