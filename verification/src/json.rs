//! JSON values: their mathematical form, reading fields out of them, and building them.

use vstd::prelude::*;
use crate::number::{decimal, decimal_text, signed_decimal, signed_decimal_text};
use crate::text::{same_text, str_of};

verus! {

/// A JSON number, as the three forms a parser tells apart.
#[derive(Debug)]
pub enum Number {
    Unsigned(u64),
    Negative(i64),
    /// A number with a fraction or an exponent, as the text it is shown with.
    Float(String),
}

/// What a [`Number`] holds.
pub enum NumberView {
    Unsigned(u64),
    Negative(i64),
    Float(Seq<char>),
}

impl View for Number {
    type V = NumberView;

    open spec fn view(&self) -> NumberView {
        match self {
            Number::Unsigned(n) => NumberView::Unsigned(*n),
            Number::Negative(n) => NumberView::Negative(*n),
            Number::Float(text) => NumberView::Float(text@),
        }
    }
}

impl NumberView {
    /// The text a number is shown with.
    pub open spec fn text(self) -> Seq<char> {
        match self {
            NumberView::Unsigned(n) => decimal(n as nat),
            NumberView::Negative(n) => signed_decimal(n as int),
            NumberView::Float(text) => text,
        }
    }
}

impl Number {
    /// The text the number is shown with.
    pub fn text(&self) -> (r: String)
        ensures
            r@ == self@.text(),
    {
        match self {
            Number::Unsigned(n) => decimal_text(*n),
            Number::Negative(n) => signed_decimal_text(*n),
            Number::Float(text) => text.clone(),
        }
    }

    fn copy(&self) -> (r: Number)
        ensures
            r@ == self@,
    {
        match self {
            Number::Unsigned(n) => Number::Unsigned(*n),
            Number::Negative(n) => Number::Negative(*n),
            Number::Float(text) => Number::Float(text.clone()),
        }
    }
}

/// A JSON value. An object is the list of its fields.
#[derive(Debug)]
pub enum Json {
    Null,
    Bool(bool),
    Number(Number),
    Text(String),
    Array(Vec<Json>),
    Object(Vec<(String, Json)>),
}

/// What a [`Json`] value holds.
pub enum JsonView {
    Null,
    Bool(bool),
    Number(NumberView),
    Text(Seq<char>),
    Array(Seq<JsonView>),
    Object(Seq<(Seq<char>, JsonView)>),
}

impl View for Json {
    type V = JsonView;

    open spec fn view(&self) -> JsonView {
        json_view(*self)
    }
}

/// What a JSON value holds, with what its items and fields hold.
pub open spec fn json_view(json: Json) -> JsonView
    decreases json,
{
    match json {
        Json::Null => JsonView::Null,
        Json::Bool(b) => JsonView::Bool(b),
        Json::Number(n) => JsonView::Number(n@),
        Json::Text(text) => JsonView::Text(text@),
        Json::Array(items) => JsonView::Array(
            Seq::new(
                items@.len(),
                |i: int|
                    if 0 <= i < items@.len() {
                        json_view(items@[i])
                    } else {
                        JsonView::Null
                    },
            ),
        ),
        Json::Object(fields) => JsonView::Object(
            Seq::new(
                fields@.len(),
                |i: int|
                    if 0 <= i < fields@.len() {
                        (fields@[i].0@, json_view(fields@[i].1))
                    } else {
                        (Seq::<char>::empty(), JsonView::Null)
                    },
            ),
        ),
    }
}

/// The items of a list of values.
pub open spec fn json_items(items: Seq<Json>) -> Seq<JsonView> {
    Seq::new(items.len(), |i: int| items[i]@)
}

/// The fields of an object.
pub open spec fn json_fields(fields: Seq<(String, Json)>) -> Seq<(Seq<char>, JsonView)> {
    Seq::new(fields.len(), |i: int| (fields[i].0@, fields[i].1@))
}

/// The object without fields.
pub open spec fn no_fields() -> JsonView {
    JsonView::Object(Seq::empty())
}

/// The array without items.
pub open spec fn no_items() -> JsonView {
    JsonView::Array(Seq::empty())
}

/// The value of the first field named `key`, from the field at `from` on.
pub open spec fn field_from(
    fields: Seq<(Seq<char>, JsonView)>,
    key: Seq<char>,
    from: int,
) -> Option<JsonView>
    decreases fields.len() - from,
{
    if 0 <= from < fields.len() {
        if fields[from].0 == key {
            Some(fields[from].1)
        } else {
            field_from(fields, key, from + 1)
        }
    } else {
        None
    }
}

impl JsonView {
    /// The value of the field named `key`, where this is an object that has one.
    pub open spec fn get(self, key: Seq<char>) -> Option<JsonView> {
        match self {
            JsonView::Object(fields) => field_from(fields, key, 0),
            _ => None,
        }
    }

    /// The object with one more field behind the others; any other value as it is.
    pub open spec fn with(self, key: Seq<char>, value: JsonView) -> JsonView {
        match self {
            JsonView::Object(fields) => JsonView::Object(fields.push((key, value))),
            other => other,
        }
    }

    /// The array with one more item behind the others; any other value as it is.
    pub open spec fn item(self, value: JsonView) -> JsonView {
        match self {
            JsonView::Array(items) => JsonView::Array(items.push(value)),
            other => other,
        }
    }

    /// The text, where this is one.
    pub open spec fn as_text(self) -> Option<Seq<char>> {
        match self {
            JsonView::Text(text) => Some(text),
            _ => None,
        }
    }

    /// The truth value, where this is one.
    pub open spec fn as_bool(self) -> Option<bool> {
        match self {
            JsonView::Bool(b) => Some(b),
            _ => None,
        }
    }

    /// The whole number, where this is one that fits 64 signed bits.
    pub open spec fn as_i64(self) -> Option<i64> {
        match self {
            JsonView::Number(NumberView::Unsigned(n)) => if n <= i64::MAX {
                Some(n as i64)
            } else {
                None
            },
            JsonView::Number(NumberView::Negative(n)) => Some(n),
            _ => None,
        }
    }

    /// The text in the field named `key`, where there is one.
    pub open spec fn get_text(self, key: Seq<char>) -> Option<Seq<char>> {
        match self.get(key) {
            Some(value) => value.as_text(),
            None => None,
        }
    }

    /// The truth value in the field named `key`, where there is one.
    pub open spec fn get_bool(self, key: Seq<char>) -> Option<bool> {
        match self.get(key) {
            Some(value) => value.as_bool(),
            None => None,
        }
    }

    /// The whole number in the field named `key`, where there is one.
    pub open spec fn get_i64(self, key: Seq<char>) -> Option<i64> {
        match self.get(key) {
            Some(value) => value.as_i64(),
            None => None,
        }
    }
}

/// The texts among a list of values, in order.
pub open spec fn texts_among(items: Seq<JsonView>) -> Seq<Seq<char>>
    decreases items.len(),
{
    if items.len() == 0 {
        Seq::empty()
    } else {
        let before = texts_among(items.drop_last());
        match items.last() {
            JsonView::Text(text) => before.push(text),
            _ => before,
        }
    }
}

/// What an optional value holds.
pub open spec fn json_of(value: Option<&Json>) -> Option<JsonView> {
    match value {
        Some(json) => Some(json@),
        None => None,
    }
}

impl Json {
    /// An array holds what its items hold.
    pub proof fn view_of_array(items: Vec<Json>)
        ensures
            Json::Array(items)@ == JsonView::Array(json_items(items@)),
    {
        reveal_with_fuel(json_view, 2);
        assert(Json::Array(items)@->Array_0 =~= json_items(items@));
    }

    /// An object holds what its fields hold.
    pub proof fn view_of_object(fields: Vec<(String, Json)>)
        ensures
            Json::Object(fields)@ == JsonView::Object(json_fields(fields@)),
    {
        reveal_with_fuel(json_view, 2);
        assert(Json::Object(fields)@->Object_0 =~= json_fields(fields@));
    }

    /// A value that holds the same.
    pub fn copy(&self) -> (r: Json)
        ensures
            r@ == self@,
        decreases self,
    {
        match self {
            Json::Null => Json::Null,
            Json::Bool(b) => Json::Bool(*b),
            Json::Number(n) => Json::Number(n.copy()),
            Json::Text(text) => Json::Text(text.clone()),
            Json::Array(items) => {
                let mut out: Vec<Json> = Vec::new();
                let mut i: usize = 0;
                while i < items.len()
                    invariant
                        self matches Json::Array(all) && all == items,
                        i <= items@.len(),
                        json_items(out@) =~= json_items(items@).take(i as int),
                    decreases items@.len() - i,
                {
                    let ghost before = out@;
                    let item: Json = items[i].copy();
                    out.push(item);
                    assert(json_items(out@) =~= json_items(before).push(items@[i as int]@));
                    i += 1;
                }
                assert(json_items(out@) =~= json_items(items@));
                proof {
                    Json::view_of_array(out);
                    Json::view_of_array(*items);
                }
                Json::Array(out)
            },
            Json::Object(fields) => {
                let mut out: Vec<(String, Json)> = Vec::new();
                let mut i: usize = 0;
                while i < fields.len()
                    invariant
                        self matches Json::Object(all) && all == fields,
                        i <= fields@.len(),
                        json_fields(out@) =~= json_fields(fields@).take(i as int),
                    decreases fields@.len() - i,
                {
                    let ghost before = out@;
                    let value: Json = fields[i].1.copy();
                    out.push((fields[i].0.clone(), value));
                    assert(json_fields(out@) =~= json_fields(before).push(
                        (fields@[i as int].0@, fields@[i as int].1@),
                    ));
                    i += 1;
                }
                assert(json_fields(out@) =~= json_fields(fields@));
                proof {
                    Json::view_of_object(out);
                    Json::view_of_object(*fields);
                }
                Json::Object(out)
            },
        }
    }

    /// The value of the field named `key`, where this is an object that has one.
    pub fn get(&self, key: &str) -> (r: Option<&Json>)
        ensures
            json_of(r) == self@.get(key@),
    {
        match self {
            Json::Object(fields) => {
                proof {
                    Json::view_of_object(*fields);
                }
                let ghost all = json_fields(fields@);
                let mut i: usize = 0;
                while i < fields.len()
                    invariant
                        all == json_fields(fields@),
                        i <= fields@.len(),
                        self@.get(key@) == field_from(all, key@, i as int),
                    decreases fields@.len() - i,
                {
                    assert(all[i as int] == (fields@[i as int].0@, fields@[i as int].1@));
                    if same_text(fields[i].0.as_str(), key) {
                        return Some(&fields[i].1);
                    }
                    i += 1;
                }
                None
            },
            _ => None,
        }
    }

    /// The text, where this is one.
    pub fn as_text(&self) -> (r: Option<&str>)
        ensures
            str_of(r) == self@.as_text(),
    {
        match self {
            Json::Text(text) => Some(text.as_str()),
            _ => None,
        }
    }

    /// The truth value, where this is one.
    pub fn as_bool(&self) -> (r: Option<bool>)
        ensures
            r == self@.as_bool(),
    {
        match self {
            Json::Bool(b) => Some(*b),
            _ => None,
        }
    }

    /// The whole number, where this is one that fits 64 signed bits.
    pub fn as_i64(&self) -> (r: Option<i64>)
        ensures
            r == self@.as_i64(),
    {
        match self {
            Json::Number(Number::Unsigned(n)) => if *n <= 0x7fff_ffff_ffff_ffff {
                Some(*n as i64)
            } else {
                None
            },
            Json::Number(Number::Negative(n)) => Some(*n),
            _ => None,
        }
    }

    /// The text in the field named `key`, where there is one.
    pub fn get_text(&self, key: &str) -> (r: Option<&str>)
        ensures
            str_of(r) == self@.get_text(key@),
    {
        match self.get(key) {
            Some(value) => value.as_text(),
            None => None,
        }
    }

    /// The truth value in the field named `key`, where there is one.
    pub fn get_bool(&self, key: &str) -> (r: Option<bool>)
        ensures
            r == self@.get_bool(key@),
    {
        match self.get(key) {
            Some(value) => value.as_bool(),
            None => None,
        }
    }

    /// The whole number in the field named `key`, where there is one.
    pub fn get_i64(&self, key: &str) -> (r: Option<i64>)
        ensures
            r == self@.get_i64(key@),
    {
        match self.get(key) {
            Some(value) => value.as_i64(),
            None => None,
        }
    }

    /// The object without fields.
    pub fn empty_object() -> (r: Json)
        ensures
            r@ == no_fields(),
    {
        let fields: Vec<(String, Json)> = Vec::new();
        proof {
            Json::view_of_object(fields);
            assert(json_fields(fields@) =~= Seq::empty());
        }
        Json::Object(fields)
    }

    /// The array without items.
    pub fn empty_array() -> (r: Json)
        ensures
            r@ == no_items(),
    {
        let items: Vec<Json> = Vec::new();
        proof {
            Json::view_of_array(items);
            assert(json_items(items@) =~= Seq::empty());
        }
        Json::Array(items)
    }

    /// The object with one more field behind the others; any other value as it is.
    pub fn with(self, key: &str, value: Json) -> (r: Json)
        ensures
            r@ == self@.with(key@, value@),
    {
        match self {
            Json::Object(fields) => {
                let mut out: Vec<(String, Json)> = fields;
                proof {
                    Json::view_of_object(out);
                }
                let ghost before = out@;
                out.push((key.to_owned(), value));
                proof {
                    Json::view_of_object(out);
                    assert(json_fields(out@) =~= json_fields(before).push((key@, value@)));
                }
                Json::Object(out)
            },
            other => other,
        }
    }

    /// The object with a text field behind the others; any other value as it is.
    pub fn with_text(self, key: &str, value: &str) -> (r: Json)
        ensures
            r@ == self@.with(key@, JsonView::Text(value@)),
    {
        self.with(key, Json::Text(value.to_owned()))
    }

    /// The array with one more item behind the others; any other value as it is.
    pub fn item(self, value: Json) -> (r: Json)
        ensures
            r@ == self@.item(value@),
    {
        match self {
            Json::Array(items) => {
                let mut out: Vec<Json> = items;
                proof {
                    Json::view_of_array(out);
                }
                let ghost before = out@;
                out.push(value);
                proof {
                    Json::view_of_array(out);
                    assert(json_items(out@) =~= json_items(before).push(value@));
                }
                Json::Array(out)
            },
            other => other,
        }
    }
}

/// The texts of a list of strings, as JSON texts.
pub open spec fn text_items(list: Seq<Seq<char>>) -> Seq<JsonView> {
    Seq::new(list.len(), |i: int| JsonView::Text(list[i]))
}

/// The array of the given texts.
pub fn text_array(list: &Vec<String>) -> (r: Json)
    ensures
        r@ == JsonView::Array(text_items(crate::text::texts(list@))),
{
    let mut out: Json = Json::empty_array();
    let mut i: usize = 0;
    let ghost all = text_items(crate::text::texts(list@));
    assert(all.take(0) =~= Seq::empty());
    while i < list.len()
        invariant
            i <= list@.len(),
            all == text_items(crate::text::texts(list@)),
            out@ == JsonView::Array(all.take(i as int)),
        decreases list@.len() - i,
    {
        out = out.item(Json::Text(list[i].clone()));
        i += 1;
        assert(all.take(i as int) =~= all.take(i - 1).push(all[i - 1]));
    }
    assert(all.take(i as int) =~= all);
    out
}

// ---------------------------------------------------------------------------------------------
// Text form
// ---------------------------------------------------------------------------------------------

/// `serde_json::Value`, carried from the wrapper that builds one to the one that prints it.
#[verifier::external_type_specification]
#[verifier::external_body]
pub struct ExValue(serde_json::Value);

/// The `serde_json` value built from a JSON value.
pub uninterp spec fn value_of(json: JsonView) -> serde_json::Value;

/// The compact text of a `serde_json` value.
pub uninterp spec fn compact_text(value: serde_json::Value) -> Seq<char>;

/// The compact text of a JSON value.
pub open spec fn json_text(json: JsonView) -> Seq<char> {
    compact_text(value_of(json))
}

/// Builds the `serde_json::Value` of the same shape, through its conversions from `bool`, the
/// integers, strings, sequences and optional numbers. A number with a fraction is read by
/// `str::parse`, which gives the nearest one, and taken by `serde_json::Number::from_f64`. What
/// comes out depends on nothing but what the value holds.
#[verifier::external_body]
pub(crate) fn to_value(json: &Json) -> (r: serde_json::Value)
    ensures
        r == value_of(json@),
{
    match json {
        Json::Null => serde_json::Value::Null,
        Json::Bool(b) => serde_json::Value::Bool(*b),
        Json::Number(Number::Unsigned(n)) => (*n).into(),
        Json::Number(Number::Negative(n)) => (*n).into(),
        Json::Number(Number::Float(text)) => {
            text.parse().ok().and_then(serde_json::Number::from_f64).into()
        },
        Json::Text(text) => text.as_str().into(),
        Json::Array(items) => items.iter().map(to_value).collect(),
        Json::Object(fields) => fields.iter().map(|(k, v)| (k.clone(), to_value(v))).collect(),
    }
}

/// Prints a `serde_json::Value` with its `Display` form, the compact JSON text. The text is a
/// function of the value; the grammar of that text is `serde_json`'s.
#[verifier::external_body]
pub(crate) fn print_value(value: &serde_json::Value) -> (r: String)
    ensures
        r@ == compact_text(*value),
{
    value.to_string()
}

/// The compact text of a JSON value.
pub fn render(json: &Json) -> (r: String)
    ensures
        r@ == json_text(json@),
{
    let value = to_value(json);
    print_value(&value)
}

// ---------------------------------------------------------------------------------------------
// Laws
// ---------------------------------------------------------------------------------------------

proof fn field_from_one_more(
    fields: Seq<(Seq<char>, JsonView)>,
    name: Seq<char>,
    value: JsonView,
    key: Seq<char>,
    from: int,
)
    requires
        0 <= from <= fields.len(),
    ensures
        field_from(fields.push((name, value)), key, from) == if field_from(fields, key, from)
            is Some {
            field_from(fields, key, from)
        } else if name == key {
            Some(value)
        } else {
            None
        },
    decreases fields.len() - from,
{
    let all = fields.push((name, value));
    if from < fields.len() {
        assert(all[from] == fields[from]);
        field_from_one_more(fields, name, value, key, from + 1);
    } else {
        assert(all[from] == (name, value));
        assert(field_from(all, key, from + 1) is None);
    }
}

/// A field that is put in is found under its name, unless one of that name was there before, and
/// every other field is found as before. The object without fields has none.
pub proof fn a_field_put_in_is_found(
    object: JsonView,
    name: Seq<char>,
    value: JsonView,
    key: Seq<char>,
)
    requires
        object is Object,
    ensures
        object.get(name) is None ==> object.with(name, value).get(name) == Some(value),
        object.get(key) is Some ==> object.with(name, value).get(key) == object.get(key),
        key != name ==> object.with(name, value).get(key) == object.get(key),
        no_fields().get(key) is None,
        object.with(name, value) is Object,
{
    field_from_one_more(object->Object_0, name, value, name, 0);
    field_from_one_more(object->Object_0, name, value, key, 0);
}

/// Only an object has fields, and only texts, truth values and whole numbers are read as such: a
/// whole number wherever it lies within 64 signed bits.
pub proof fn values_are_read_as_what_they_are(json: JsonView, key: Seq<char>)
    ensures
        !(json is Object) ==> json.get(key) is None,
        json.as_text() is Some <==> json is Text,
        json matches JsonView::Text(text) ==> json.as_text() == Some(text),
        json.as_bool() is Some <==> json is Bool,
        json matches JsonView::Bool(b) ==> json.as_bool() == Some(b),
        json matches JsonView::Number(NumberView::Unsigned(n)) ==> (n < 0x8000_0000_0000_0000
            <==> json.as_i64() is Some),
        json matches JsonView::Number(NumberView::Unsigned(n)) ==> (json.as_i64() matches Some(m)
            ==> m == n),
        json matches JsonView::Number(NumberView::Negative(n)) ==> json.as_i64() == Some(n),
        json.as_i64() is Some ==> json is Number,
{
}

/// The text of a number is its decimal digits, which read back as the number.
pub proof fn numbers_are_shown_as_they_read(n: u64, m: i64, text: Seq<char>)
    ensures
        crate::number::unsigned_value(NumberView::Unsigned(n).text()) == Some(n as nat),
        crate::number::signed_value(NumberView::Negative(m).text()) == Some(m as int),
        NumberView::Float(text).text() == text,
{
    crate::number::decimal_reads_back(n as nat);
    crate::number::signed_decimal_reads_back(m as int);
}

/// The texts among two lists of values are those among the one and then those among the other;
/// a text alone is one, and any other value is none.
pub proof fn texts_among_two_lists(a: Seq<JsonView>, b: Seq<JsonView>, value: JsonView)
    ensures
        texts_among(a + b) == texts_among(a) + texts_among(b),
        value matches JsonView::Text(text) ==> texts_among(seq![value]) == seq![text],
        !(value is Text) ==> texts_among(seq![value]).len() == 0,
    decreases b.len(),
{
    assert(seq![value].drop_last() =~= Seq::empty());
    assert(texts_among(Seq::<JsonView>::empty()) =~= Seq::empty());
    if let JsonView::Text(text) = value {
        assert(texts_among(seq![value]) =~= seq![text]);
    }
    if b.len() == 0 {
        assert(a + b =~= a);
        assert(texts_among(a) + texts_among(b) =~= texts_among(a));
    } else {
        assert((a + b).drop_last() =~= a + b.drop_last());
        texts_among_two_lists(a, b.drop_last(), value);
        assert(texts_among(a + b) =~= texts_among(a) + texts_among(b));
    }
}

/// A list of texts as JSON holds each of them, at its place.
pub proof fn text_items_hold_the_texts(list: Seq<Seq<char>>)
    ensures
        text_items(list).len() == list.len(),
        forall|i: int| 0 <= i < list.len() ==> #[trigger] text_items(list)[i] == JsonView::Text(list[i]),
        texts_among(text_items(list)) == list,
    decreases list.len(),
{
    if list.len() > 0 {
        text_items_hold_the_texts(list.drop_last());
        assert(text_items(list).drop_last() =~= text_items(list.drop_last()));
        assert(texts_among(text_items(list)) =~= list);
    } else {
        assert(texts_among(text_items(list)) =~= list);
    }
}

} // verus!
