//! JSON documents as values, and the two services of `serde_json` that the
//! library uses on text.
use crate::text::{self, decimal_of, same_text};
use vstd::prelude::*;
use vstd::string::*;

verus! {

/// What a JSON document holds.
pub enum JsonView {
    Null,
    Bool(bool),
    Number(Seq<char>),
    Text(Seq<char>),
    Array(Seq<JsonView>),
    Object(Seq<JsonFieldView>),
}

/// What a named value of a JSON object holds.
pub struct JsonFieldView {
    pub name: Seq<char>,
    pub value: JsonView,
}

/// A JSON document. A number is kept as the text that denotes it.
#[derive(Debug, PartialEq, Eq)]
pub enum Json {
    Null,
    Bool(bool),
    Number(String),
    Text(String),
    Array(Vec<Json>),
    Object(Vec<JsonField>),
}

/// A named value of a JSON object.
#[derive(Debug, PartialEq, Eq)]
pub struct JsonField {
    pub name: String,
    pub value: Json,
}

impl View for Json {
    type V = JsonView;

    open spec fn view(&self) -> JsonView
        decreases self,
    {
        match self {
            Json::Null => JsonView::Null,
            Json::Bool(value) => JsonView::Bool(*value),
            Json::Number(digits) => JsonView::Number(digits@),
            Json::Text(content) => JsonView::Text(content@),
            Json::Array(items) => JsonView::Array(
                Seq::new(
                    items@.len(),
                    |i: int|
                        if 0 <= i < items@.len() {
                            items@[i].view()
                        } else {
                            JsonView::Null
                        },
                ),
            ),
            Json::Object(fields) => JsonView::Object(
                Seq::new(
                    fields@.len(),
                    |i: int|
                        if 0 <= i < fields@.len() {
                            JsonFieldView {
                                name: fields@[i].name@,
                                value: fields@[i].value.view(),
                            }
                        } else {
                            arbitrary()
                        },
                ),
            ),
        }
    }
}

impl View for JsonField {
    type V = JsonFieldView;

    open spec fn view(&self) -> JsonFieldView {
        JsonFieldView { name: self.name@, value: self.value@ }
    }
}

impl Clone for Json {
    fn clone(&self) -> (copy: Self)
        ensures
            copy@ == self@,
        decreases self,
    {
        match self {
            Json::Null => Json::Null,
            Json::Bool(value) => Json::Bool(*value),
            Json::Number(digits) => Json::Number(digits.clone()),
            Json::Text(content) => Json::Text(content.clone()),
            Json::Array(items) => {
                let mut copies: Vec<Json> = Vec::new();
                let mut i: usize = 0;
                while i < items.len()
                    invariant
                        self matches Json::Array(whole) && whole == items,
                        i <= items.len(),
                        copies@.len() == i,
                        forall|k: int| 0 <= k < i ==> copies@[k]@ == items@[k]@,
                    decreases items.len() - i,
                {
                    copies.push(items[i].clone());
                    i += 1;
                }
                let copy = Json::Array(copies);
                assert(copy@->Array_0 =~= self@->Array_0);
                copy
            },
            Json::Object(fields) => {
                let mut copies: Vec<JsonField> = Vec::new();
                let mut i: usize = 0;
                while i < fields.len()
                    invariant
                        self matches Json::Object(whole) && whole == fields,
                        i <= fields.len(),
                        copies@.len() == i,
                        forall|k: int|
                            0 <= k < i ==> (#[trigger] copies@[k]).name@ == fields@[k].name@
                                && copies@[k].value@ == fields@[k].value@,
                    decreases fields.len() - i,
                {
                    let name = fields[i].name.clone();
                    let value = fields[i].value.clone();
                    copies.push(JsonField { name, value });
                    i += 1;
                }
                let ghost copied = copies@;
                let copy = Json::Object(copies);
                assert forall|k: int| 0 <= k < copied.len() implies copy@->Object_0[k]
                    == self@->Object_0[k] by {
                    assert(copied[k].name@ == fields@[k].name@);
                }
                assert(copy@->Object_0 =~= self@->Object_0);
                copy
            },
        }
    }
}

/// The position of the first field with a name, from `from` on, or the number
/// of fields.
pub open spec fn field_position(
    fields: Seq<JsonFieldView>,
    name: Seq<char>,
    from: int,
) -> int
    decreases fields.len() - from,
{
    if from >= fields.len() {
        fields.len() as int
    } else if fields[from].name == name {
        from
    } else {
        field_position(fields, name, from + 1)
    }
}

impl JsonView {
    /// The value of a named field, of an object that has it.
    pub open spec fn field(self, name: Seq<char>) -> Option<JsonView> {
        match self {
            JsonView::Object(fields) => {
                let at = field_position(fields, name, 0);
                if at < fields.len() {
                    Some(fields[at].value)
                } else {
                    None
                }
            },
            _ => None,
        }
    }

    /// The content of a named field that holds text.
    pub open spec fn text_field(self, name: Seq<char>) -> Option<Seq<char>> {
        match self.field(name) {
            Some(JsonView::Text(content)) => Some(content),
            _ => None,
        }
    }

    /// The value of a named field that holds a truth value.
    pub open spec fn bool_field(self, name: Seq<char>) -> Option<bool> {
        match self.field(name) {
            Some(JsonView::Bool(value)) => Some(value),
            _ => None,
        }
    }

    /// The object with a field set; anything else as it is.
    pub open spec fn with_field(self, name: Seq<char>, value: JsonView) -> JsonView {
        match self {
            JsonView::Object(fields) => {
                let at = field_position(fields, name, 0);
                let set = JsonFieldView { name, value };
                JsonView::Object(
                    if at < fields.len() {
                        fields.update(at, set)
                    } else {
                        fields.push(set)
                    },
                )
            },
            _ => self,
        }
    }

    /// An array with at least one item.
    pub open spec fn nonempty_array(self) -> bool {
        self matches JsonView::Array(items) && items.len() > 0
    }
}

impl Json {
    /// The value of a named field, of an object that has it.
    pub fn get(&self, name: &str) -> (r: Option<&Json>)
        ensures
            match r {
                Some(value) => self@.field(name@) == Some(value@),
                None => self@.field(name@) is None,
            },
    {
        match self {
            Json::Object(fields) => {
                let ghost views = self@->Object_0;
                let mut i: usize = 0;
                while i < fields.len()
                    invariant
                        self matches Json::Object(whole) && whole == fields,
                        views == self@->Object_0,
                        views.len() == fields@.len(),
                        i <= fields.len(),
                        field_position(views, name@, 0) == field_position(views, name@, i as int),
                    decreases fields.len() - i,
                {
                    assert(views[i as int].name == fields@[i as int].name@);
                    if same_text(fields[i].name.as_str(), name) {
                        return Some(&fields[i].value);
                    }
                    i += 1;
                }
                None
            },
            _ => None,
        }
    }

    /// The content of a named field that holds text.
    pub fn text_field(&self, name: &str) -> (r: Option<&String>)
        ensures
            match r {
                Some(content) => self@.text_field(name@) == Some(content@),
                None => self@.text_field(name@) is None,
            },
    {
        match self.get(name) {
            Some(Json::Text(content)) => Some(content),
            _ => None,
        }
    }

    /// The value of a named field that holds a truth value.
    pub fn bool_field(&self, name: &str) -> (r: Option<bool>)
        ensures
            r == self@.bool_field(name@),
    {
        match self.get(name) {
            Some(Json::Bool(value)) => Some(*value),
            _ => None,
        }
    }

    /// The object with a field set; anything else as it is.
    pub fn with_field(self, name: &str, value: Json) -> (json: Json)
        ensures
            json@ == self@.with_field(name@, value@),
    {
        match self {
            Json::Object(fields) => {
                let ghost views = field_views(fields@);
                proof {
                    lemma_object_view(self, fields@);
                    assert(self@->Object_0 =~= views);
                }
                let mut held = fields;
                let set = JsonField { name: name.to_owned(), value };
                let mut i: usize = 0;
                while i < held.len() && !same_text(held[i].name.as_str(), name)
                    invariant
                        views == field_views(held@),
                        i <= held@.len(),
                        field_position(views, name@, 0) == field_position(views, name@, i as int),
                    decreases held.len() - i,
                {
                    assert(views[i as int] == held@[i as int]@);
                    i += 1;
                }
                if i < held.len() {
                    assert(views[i as int] == held@[i as int]@);
                    held.set(i, set);
                    assert(field_views(held@) =~= views.update(i as int, set@));
                } else {
                    held.push(set);
                    assert(field_views(held@) =~= views.push(set@));
                }
                object(held)
            },
            other => other,
        }
    }

    /// Tests for an object.
    pub fn is_object(&self) -> (r: bool)
        ensures
            r == (self@ is Object),
    {
        match self {
            Json::Object(_) => true,
            _ => false,
        }
    }

    /// Tests for an array with at least one item.
    pub fn is_nonempty_array(&self) -> (r: bool)
        ensures
            r == self@.nonempty_array(),
    {
        match self {
            Json::Array(items) => {
                proof {
                    lemma_array_view(*self, items@);
                }
                items.len() > 0
            },
            _ => false,
        }
    }
}

/// A document that holds text.
pub fn json_text(content: &str) -> (json: Json)
    ensures
        json@ == JsonView::Text(content@),
{
    Json::Text(content.to_owned())
}

/// A named text.
pub fn text_entry(name: &str, content: &str) -> (field: JsonField)
    ensures
        field@ == (JsonFieldView { name: name@, value: JsonView::Text(content@) }),
{
    JsonField { name: name.to_owned(), value: json_text(content) }
}

/// The document for an object with the given fields.
pub open spec fn object_of(fields: Seq<JsonFieldView>) -> JsonView {
    JsonView::Object(fields)
}

/// A named text.
pub open spec fn text_entry_of(name: Seq<char>, content: Seq<char>) -> JsonFieldView {
    JsonFieldView { name, value: JsonView::Text(content) }
}

/// An array document holds what its items hold.
pub proof fn lemma_array_view(json: Json, items: Seq<Json>)
    requires
        json matches Json::Array(held) && held@ == items,
    ensures
        json@ is Array,
        json@->Array_0.len() == items.len(),
        forall|i: int| 0 <= i < items.len() ==> #[trigger] json@->Array_0[i] == items[i]@,
{
}

proof fn lemma_object_view(json: Json, fields: Seq<JsonField>)
    requires
        json matches Json::Object(held) && held@ == fields,
    ensures
        json@ is Object,
        json@->Object_0.len() == fields.len(),
        forall|i: int| 0 <= i < fields.len() ==> #[trigger] json@->Object_0[i] == fields[i]@,
{
}

/// What the fields hold.
pub open spec fn field_views(fields: Seq<JsonField>) -> Seq<JsonFieldView> {
    fields.map_values(|field: JsonField| field@)
}

/// An object with the given fields.
pub fn object(fields: Vec<JsonField>) -> (json: Json)
    ensures
        json@ == object_of(field_views(fields@)),
{
    let ghost held = fields@;
    let json = Json::Object(fields);
    proof {
        lemma_object_view(json, held);
        assert(json@->Object_0 =~= field_views(held));
    }
    json
}

/// A named value.
pub fn entry(name: &str, value: Json) -> (field: JsonField)
    ensures
        field@ == (JsonFieldView { name: name@, value: value@ }),
{
    JsonField { name: name.to_owned(), value }
}

/// A named number.
pub open spec fn number_entry_of(name: Seq<char>, number: nat) -> JsonFieldView {
    JsonFieldView { name, value: JsonView::Number(text::decimal(number)) }
}

/// A named number.
pub fn number_entry(name: &str, number: u64) -> (field: JsonField)
    ensures
        field@ == number_entry_of(name@, number as nat),
{
    JsonField { name: name.to_owned(), value: Json::Number(decimal_of(number)) }
}

/// A list of texts.
pub open spec fn text_list_of(values: Seq<Seq<char>>) -> JsonView {
    JsonView::Array(values.map_values(|content: Seq<char>| JsonView::Text(content)))
}

/// A list of texts.
pub fn text_list(values: &Vec<String>) -> (list: Json)
    ensures
        list@ == text_list_of(values@.map_values(|value: String| value@)),
{
    let mut items: Vec<Json> = Vec::new();
    let mut i: usize = 0;
    while i < values.len()
        invariant
            i <= values@.len(),
            items@.len() == i,
            forall|k: int|
                0 <= k < i ==> (#[trigger] items@[k])@ == JsonView::Text(values@[k]@),
        decreases values.len() - i,
    {
        items.push(Json::Text(values[i].clone()));
        i += 1;
    }
    let ghost contents = items@;
    let list = Json::Array(items);
    proof {
        lemma_array_view(list, contents);
        let goal = text_list_of(values@.map_values(|value: String| value@));
        assert(list@->Array_0 =~= goal->Array_0);
    }
    list
}

/// An object with one field.
pub fn object_1(first: JsonField) -> (json: Json)
    ensures
        json@ == object_of(seq![first@]),
{
    let mut fields: Vec<JsonField> = Vec::new();
    fields.push(first);
    let ghost held = fields@;
    let json = Json::Object(fields);
    proof {
        lemma_object_view(json, held);
        assert(json@->Object_0 =~= seq![first@]);
    }
    json
}

/// An object with two fields.
pub fn object_2(first: JsonField, second: JsonField) -> (json: Json)
    ensures
        json@ == object_of(seq![first@, second@]),
{
    let mut fields: Vec<JsonField> = Vec::new();
    fields.push(first);
    fields.push(second);
    let ghost held = fields@;
    let json = Json::Object(fields);
    proof {
        lemma_object_view(json, held);
        assert(json@->Object_0 =~= seq![first@, second@]);
    }
    json
}

/// An object with three fields.
pub fn object_3(first: JsonField, second: JsonField, third: JsonField) -> (json: Json)
    ensures
        json@ == object_of(seq![first@, second@, third@]),
{
    let mut fields: Vec<JsonField> = Vec::new();
    fields.push(first);
    fields.push(second);
    fields.push(third);
    let ghost held = fields@;
    let json = Json::Object(fields);
    proof {
        lemma_object_view(json, held);
        assert(json@->Object_0 =~= seq![first@, second@, third@]);
    }
    json
}

/// How a character is written inside a JSON string: quotation mark and reverse
/// solidus behind a reverse solidus, control characters by their short escape
/// or as `\u00xx`, everything else as it is.
pub open spec fn json_escape(c: char) -> Seq<char> {
    if c == '"' {
        seq!['\\', '"']
    } else if c == '\\' {
        seq!['\\', '\\']
    } else if c == '\x08' {
        seq!['\\', 'b']
    } else if c == '\t' {
        seq!['\\', 't']
    } else if c == '\n' {
        seq!['\\', 'n']
    } else if c == '\x0C' {
        seq!['\\', 'f']
    } else if c == '\r' {
        seq!['\\', 'r']
    } else if (c as u32) < 0x20 {
        seq!['\\', 'u', '0', '0', text::digit(c as int / 16), text::digit(c as int % 16)]
    } else {
        seq![c]
    }
}

/// The characters of a text as they are written inside a JSON string.
pub open spec fn json_escaped(content: Seq<char>) -> Seq<char>
    decreases content.len(),
{
    if content.len() == 0 {
        Seq::empty()
    } else {
        json_escaped(content.drop_last()) + json_escape(content.last())
    }
}

/// The JSON string that denotes a text.
pub open spec fn json_quoted(content: Seq<char>) -> Seq<char> {
    seq!['"'] + json_escaped(content) + seq!['"']
}

/// `serde_json::to_string` of a text is the JSON string that denotes it.
#[verifier::external_body]
pub(crate) fn json_string(content: &str) -> (quoted: String)
    ensures
        quoted@ == json_quoted(content@),
{
    serde_json::to_string(content).expect("text is always serializable")
}

proof fn lemma_escape_is_printable(c: char)
    ensures
        forall|i: int|
            0 <= i < json_escape(c).len() ==> (#[trigger] json_escape(c)[i]) as u32 >= 0x20,
{
}

/// A JSON string holds no control character, so that it stands on one line of a
/// script whatever the text is.
pub proof fn lemma_quoted_is_printable(content: Seq<char>)
    ensures
        forall|i: int|
            0 <= i < json_quoted(content).len() ==> (#[trigger] json_quoted(content)[i]) as u32
                >= 0x20,
{
    lemma_escaped_is_printable(content);
}

proof fn lemma_escaped_is_printable(content: Seq<char>)
    ensures
        forall|i: int|
            0 <= i < json_escaped(content).len() ==> (#[trigger] json_escaped(content)[i]) as u32
                >= 0x20,
    decreases content.len(),
{
    if content.len() > 0 {
        let init = json_escaped(content.drop_last());
        let end = json_escape(content.last());
        lemma_escaped_is_printable(content.drop_last());
        lemma_escape_is_printable(content.last());
        assert forall|i: int| 0 <= i < (init + end).len() implies (#[trigger] (init + end)[i])
            as u32 >= 0x20 by {
            if i < init.len() {
                assert((init + end)[i] == init[i]);
            } else {
                assert((init + end)[i] == end[i - init.len()]);
            }
        }
    }
}

/// A JSON document as `serde_json` holds it.
#[verifier::external_type_specification]
#[verifier::external_body]
pub struct ExValue(serde_json::Value);

/// What a document that `serde_json` holds contains.
pub uninterp spec fn value_content(value: serde_json::Value) -> JsonView;

/// What `serde_json::from_str` reads from a text: the document, or the message
/// of the error.
pub uninterp spec fn parsed_json(content: Seq<char>) -> Result<JsonView, Seq<char>>;

/// How many characters a text may have that a document is read from.
pub const DOCUMENT_CHARS_LIMIT: usize = 0x7fff_ffff;

/// `serde_json::from_str` reads a document from a text; the outcome is a
/// function of the text. An error is handed on as its message. The digits of a number
/// are counted in an `i32`, which would overflow in a longer text.
#[verifier::external_body]
fn parse_value(content: &str) -> (r: Result<serde_json::Value, String>)
    requires
        content@.len() <= DOCUMENT_CHARS_LIMIT,
    ensures
        match r {
            Ok(value) => parsed_json(content@) == Ok::<JsonView, Seq<char>>(value_content(value)),
            Err(message) => parsed_json(content@) == Err::<JsonView, Seq<char>>(message@),
        },
{
    serde_json::from_str::<serde_json::Value>(content).map_err(|error| error.to_string())
}

/// Takes a `serde_json::Value` apart into a document of this library, part for
/// part; a number becomes the text that `serde_json` writes for it.
#[verifier::external_body]
fn read_value(value: serde_json::Value) -> (json: Json)
    ensures
        json@ == value_content(value),
{
    match value {
        serde_json::Value::Null => Json::Null,
        serde_json::Value::Bool(value) => Json::Bool(value),
        serde_json::Value::Number(value) => Json::Number(value.to_string()),
        serde_json::Value::String(value) => Json::Text(value),
        serde_json::Value::Array(values) => Json::Array(values.into_iter().map(read_value).collect()),
        serde_json::Value::Object(fields) => Json::Object(
            fields.into_iter().map(|(name, value)| JsonField { name, value: read_value(value) }).collect(),
        ),
    }
}

/// Reads a document from a text.
pub fn parse_json(content: &str) -> (r: Result<Json, String>)
    requires
        content@.len() <= DOCUMENT_CHARS_LIMIT,
    ensures
        match r {
            Ok(json) => parsed_json(content@) == Ok::<JsonView, Seq<char>>(json@),
            Err(message) => parsed_json(content@) == Err::<JsonView, Seq<char>>(message@),
        },
{
    match parse_value(content) {
        Ok(value) => Ok(read_value(value)),
        Err(message) => Err(message),
    }
}

} // verus!
