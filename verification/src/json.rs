//! JSON values and JSON text.

use crate::text::{same_text, texts};
use vstd::prelude::*;
use vstd::utf8::encode_utf8;

verus! {

/// A JSON value. A number is held as its text.
#[derive(Debug, PartialEq, Eq)]
pub enum Json {
    /// `null`.
    Null,
    /// `true` or `false`.
    Bool(bool),
    /// A number, as it is written.
    Number(String),
    /// A string.
    Text(String),
    /// An array.
    Array(Vec<Json>),
    /// An object: its fields, each with its name.
    Object(Vec<(String, Json)>),
}

/// [`Json`] over plain values.
pub enum JsonModel {
    Null,
    Bool(bool),
    Number(Seq<char>),
    Text(Seq<char>),
    Array(Seq<JsonModel>),
    Object(Seq<(Seq<char>, JsonModel)>),
}

/// A JSON value over plain values.
pub open spec fn model(value: Json) -> JsonModel
    decreases value,
{
    match value {
        Json::Null => JsonModel::Null,
        Json::Bool(b) => JsonModel::Bool(b),
        Json::Number(n) => JsonModel::Number(n@),
        Json::Text(t) => JsonModel::Text(t@),
        Json::Array(items) => JsonModel::Array(
            Seq::new(
                items@.len(),
                |i: int|
                    if 0 <= i < items@.len() {
                        model(items@[i])
                    } else {
                        JsonModel::Null
                    },
            ),
        ),
        Json::Object(fields) => JsonModel::Object(
            Seq::new(
                fields@.len(),
                |i: int|
                    if 0 <= i < fields@.len() {
                        (fields@[i].0@, model(fields@[i].1))
                    } else {
                        (Seq::empty(), JsonModel::Null)
                    },
            ),
        ),
    }
}

/// The values of a list.
pub open spec fn models(items: Seq<Json>) -> Seq<JsonModel> {
    Seq::new(items.len(), |i: int| model(items[i]))
}

/// The field `key` of an object: the first of that name, from `i` on.
pub open spec fn field_from(
    fields: Seq<(Seq<char>, JsonModel)>,
    key: Seq<char>,
    i: int,
) -> Option<JsonModel>
    decreases fields.len() - i,
{
    if i < 0 || i >= fields.len() {
        None
    } else if fields[i].0 == key {
        Some(fields[i].1)
    } else {
        field_from(fields, key, i + 1)
    }
}

/// The field `key` of a value: none where it is no object or has no such
/// field.
pub open spec fn field(value: JsonModel, key: Seq<char>) -> Option<JsonModel> {
    match value {
        JsonModel::Object(fields) => field_from(fields, key, 0),
        _ => None,
    }
}

/// The items of an array.
pub open spec fn items_of(value: Option<JsonModel>) -> Option<Seq<JsonModel>> {
    match value {
        Some(JsonModel::Array(items)) => Some(items),
        _ => None,
    }
}

/// The text of a string.
pub open spec fn text_of(value: Option<JsonModel>) -> Option<Seq<char>> {
    match value {
        Some(JsonModel::Text(text)) => Some(text),
        _ => None,
    }
}

impl View for Json {
    type V = JsonModel;

    open spec fn view(&self) -> JsonModel {
        model(*self)
    }
}

impl Clone for Json {
    fn clone(&self) -> (copy: Json)
        ensures
            copy@ == self@,
    {
        self.copy()
    }
}

impl Json {
    /// The field `key`: none where the value is no object or has no such
    /// field.
    pub fn get(&self, key: &str) -> (value: Option<&Json>)
        ensures
            value is Some <==> field(self@, key@) is Some,
            value matches Some(v) ==> v@ == field(self@, key@)->0,
    {
        match self {
            Json::Object(fields) => get_field(fields, key),
            _ => None,
        }
    }

    /// The items, where the value is an array.
    pub fn as_array(&self) -> (items: Option<&Vec<Json>>)
        ensures
            items is Some <==> self@ is Array,
            items matches Some(list) ==> self@ == JsonModel::Array(models(list@)),
    {
        match self {
            Json::Array(list) => {
                assert(self@->Array_0 =~= models(list@));
                Some(list)
            },
            _ => None,
        }
    }

    /// The text, where the value is a string.
    pub fn as_str(&self) -> (text: Option<&str>)
        ensures
            text is Some <==> self@ is Text,
            text matches Some(t) ==> self@ == JsonModel::Text(t@),
    {
        match self {
            Json::Text(text) => Some(text.as_str()),
            _ => None,
        }
    }

    /// A copy of the value.
    pub fn copy(&self) -> (copy: Json)
        ensures
            copy@ == self@,
        decreases self,
    {
        match self {
            Json::Null => Json::Null,
            Json::Bool(b) => Json::Bool(*b),
            Json::Number(n) => Json::Number(n.clone()),
            Json::Text(t) => Json::Text(t.clone()),
            Json::Array(items) => {
                let mut list: Vec<Json> = Vec::new();
                for i in 0..items.len()
                    invariant
                        *self == Json::Array(*items),
                        list@.len() == i,
                        forall|k: int| 0 <= k < i ==> model(#[trigger] list@[k]) == model(items@[k]),
                {
                    assert(decreases_to!(*items => items@));
                    assert(decreases_to!(items@ => items@[i as int]));
                    assert(decreases_to!(*self => self->Array_0));
                    list.push(items[i].copy());
                }
                let copy = Json::Array(list);
                assert(copy@->Array_0 =~= self@->Array_0);
                copy
            },
            Json::Object(fields) => {
                let mut list: Vec<(String, Json)> = Vec::new();
                for i in 0..fields.len()
                    invariant
                        *self == Json::Object(*fields),
                        list@.len() == i,
                        forall|k: int|
                            0 <= k < i ==> (#[trigger] list@[k]).0@ == fields@[k].0@ && list@[k].1@
                                == fields@[k].1@,
                {
                    assert(decreases_to!(*self => self->Object_0));
                    assert(decreases_to!(*fields => fields@));
                    assert(decreases_to!(fields@ => fields@[i as int]));
                    assert(decreases_to!(fields@[i as int] => fields@[i as int].1));
                    list.push((fields[i].0.clone(), fields[i].1.copy()));
                }
                let copy = Json::Object(list);
                assert(copy@->Object_0 =~= self@->Object_0);
                copy
            },
        }
    }
}

/// The field `key` of an object's fields.
fn get_field<'a>(fields: &'a Vec<(String, Json)>, key: &str) -> (value: Option<&'a Json>)
    ensures
        value is Some <==> field(model(Json::Object(*fields)), key@) is Some,
        value matches Some(v) ==> v@ == field(model(Json::Object(*fields)), key@)->0,
{
    let ghost plain = model(Json::Object(*fields))->Object_0;
    for i in 0..fields.len()
        invariant
            plain == model(Json::Object(*fields))->Object_0,
            plain.len() == fields@.len(),
            field_from(plain, key@, 0) == field_from(plain, key@, i as int),
    {
        assert(plain[i as int] == (fields@[i as int].0@, model(fields@[i as int].1)));
        if same_text(fields[i].0.as_str(), key) {
            return Some(&fields[i].1);
        }
    }
    None
}

/// Copies of a list of values.
pub fn copy_all(items: &Vec<Json>) -> (list: Vec<Json>)
    ensures
        models(list@) == models(items@),
{
    let mut list: Vec<Json> = Vec::new();
    for i in 0..items.len()
        invariant
            list@.len() == i,
            forall|k: int| 0 <= k < i ==> model(#[trigger] list@[k]) == model(items@[k]),
    {
        list.push(items[i].copy());
    }
    assert(models(list@) =~= models(items@));
    list
}

/// The value that JSON text holds, none where it is no JSON text, as
/// `serde_json` reads it.
pub uninterp spec fn parsed(text: Seq<u8>) -> Option<JsonModel>;

/// An optional value over plain values.
pub open spec fn optional(value: Option<Json>) -> Option<JsonModel> {
    match value {
        Some(v) => Some(v@),
        None => None,
    }
}

/// `serde_json::Value`, which only passes through.
#[verifier::external_type_specification]
#[verifier::external_body]
pub struct ExValue(serde_json::Value);

/// A `serde_json::Value` as a [`Json`], variant by variant.
#[verifier::external_body]
fn plain(value: serde_json::Value) -> Json {
    match value {
        serde_json::Value::Null => Json::Null,
        serde_json::Value::Bool(b) => Json::Bool(b),
        serde_json::Value::Number(n) => Json::Number(n.to_string()),
        serde_json::Value::String(s) => Json::Text(s),
        serde_json::Value::Array(list) => Json::Array(list.into_iter().map(plain).collect()),
        serde_json::Value::Object(map) => {
            Json::Object(map.into_iter().map(|(name, v)| (name, plain(v))).collect())
        },
    }
}

/// `serde_json::from_slice` reads JSON text into a value. Claimed: whether the
/// text is JSON, and its value, depend on the bytes alone.
#[verifier::external_body]
pub(crate) fn parse(text: &[u8]) -> (value: Option<Json>)
    ensures
        optional(value) == parsed(text@),
{
    serde_json::from_slice::<serde_json::Value>(text).ok().map(plain)
}

/// The compact JSON text of a value, as `serde_json` writes it.
pub uninterp spec fn written(value: JsonModel) -> Seq<char>;

/// A [`Json`] as a `serde_json::Value`, variant by variant; a number is read
/// from its text.
#[verifier::external_body]
fn outside(value: &Json) -> serde_json::Value {
    match value {
        Json::Null => serde_json::Value::Null,
        Json::Bool(b) => serde_json::Value::Bool(*b),
        Json::Number(n) => serde_json::from_str(n).unwrap_or(serde_json::Value::Null),
        Json::Text(t) => serde_json::Value::String(t.clone()),
        Json::Array(list) => serde_json::Value::Array(list.iter().map(outside).collect()),
        Json::Object(fields) => serde_json::Value::Object(
            fields.iter().map(|(name, v)| (name.clone(), outside(v))).collect(),
        ),
    }
}

/// The value holds no number.
pub open spec fn numberless(value: JsonModel) -> bool
    decreases value,
{
    match value {
        JsonModel::Number(_) => false,
        JsonModel::Array(items) => forall|i: int|
            0 <= i < items.len() ==> numberless(#[trigger] items[i]),
        JsonModel::Object(fields) => forall|i: int|
            0 <= i < fields.len() ==> numberless((#[trigger] fields[i]).1),
        _ => true,
    }
}

/// The entries of a list of named texts: for each name, what its last text is.
pub open spec fn last_texts(pairs: Seq<(Seq<char>, Seq<char>)>) -> Map<Seq<char>, Seq<char>>
    decreases pairs.len(),
{
    if pairs.len() == 0 {
        Map::empty()
    } else {
        last_texts(pairs.drop_last()).insert(pairs.last().0, pairs.last().1)
    }
}

/// The object whose one field `key` holds an object of texts.
pub open spec fn texts_under(key: Seq<char>, pairs: Seq<(Seq<char>, Seq<char>)>) -> JsonModel {
    JsonModel::Object(
        seq![
            (
                key,
                JsonModel::Object(
                    Seq::new(pairs.len(), |i: int| (pairs[i].0, JsonModel::Text(pairs[i].1))),
                ),
            ),
        ],
    )
}

/// JSON text holds exactly the entries, as an object of strings under `key`.
pub open spec fn holds_entries(
    text: Seq<u8>,
    key: Seq<char>,
    entries: Map<Seq<char>, Seq<char>>,
) -> bool {
    &&& parsed(text) matches Some(value)
    &&& field(value, key) matches Some(inner)
    &&& inner is Object
    &&& forall|name: Seq<char>|
        text_of(#[trigger] field(inner, name)) == if entries.contains_key(name) {
            Some(entries[name])
        } else {
            None
        }
}

/// `serde_json::Value::to_string` writes a value as compact JSON text; an
/// object's fields stand in the order of their names, and of two of one name
/// the last is written. Claimed: the text depends on the value alone. And of
/// an object of texts under one key: the text depends on the key and the
/// entries alone, not on the order of the fields, and what `serde_json` reads
/// from it holds exactly the entries. A value with a number is not admitted:
/// `serde_json` may read another number from a number's text.
#[verifier::external_body]
pub(crate) fn render(value: &Json) -> (text: String)
    requires
        numberless(value@),
    ensures
        text@ == written(value@),
        forall|key: Seq<char>, pairs: Seq<(Seq<char>, Seq<char>)>|
            value@ == #[trigger] texts_under(key, pairs) ==> holds_entries(
                encode_utf8(text@),
                key,
                last_texts(pairs),
            ),
        forall|
            key: Seq<char>,
            pairs: Seq<(Seq<char>, Seq<char>)>,
            other: Seq<(Seq<char>, Seq<char>)>,
        |
            value@ == #[trigger] texts_under(key, pairs) && last_texts(pairs) == last_texts(other)
                ==> text@ == written(#[trigger] texts_under(key, other)),
{
    outside(value).to_string()
}

/// The JSON string literal of a text.
pub open spec fn quoted(text: Seq<char>) -> Seq<char> {
    written(JsonModel::Text(text))
}

/// The JSON string literal of a text.
pub fn quote(text: &str) -> (literal: String)
    ensures
        literal@ == quoted(text@),
{
    render(&Json::Text(text.to_owned()))
}

/// The parts with a comma between two.
pub open spec fn commas(parts: Seq<Seq<char>>) -> Seq<char>
    decreases parts.len(),
{
    if parts.len() == 0 {
        Seq::empty()
    } else if parts.len() == 1 {
        parts[0]
    } else {
        commas(parts.drop_last()) + ","@ + parts.last()
    }
}

/// The JSON text of a value, without white space: a number as it is held, and
/// an object's fields in the order in which they are held.
pub open spec fn compact(value: JsonModel) -> Seq<char>
    decreases value,
{
    match value {
        JsonModel::Null => "null"@,
        JsonModel::Bool(b) => if b {
            "true"@
        } else {
            "false"@
        },
        JsonModel::Number(n) => n,
        JsonModel::Text(t) => quoted(t),
        JsonModel::Array(items) => "["@ + commas(item_texts(items)) + "]"@,
        JsonModel::Object(fields) => "{"@ + commas(field_texts(fields)) + "}"@,
    }
}

/// The JSON texts of the items of an array.
pub open spec fn item_texts(items: Seq<JsonModel>) -> Seq<Seq<char>>
    decreases items,
{
    Seq::new(
        items.len(),
        |i: int|
            if 0 <= i < items.len() {
                compact(items[i])
            } else {
                Seq::empty()
            },
    )
}

/// The JSON texts of the fields of an object.
pub open spec fn field_texts(fields: Seq<(Seq<char>, JsonModel)>) -> Seq<Seq<char>>
    decreases fields,
{
    Seq::new(
        fields.len(),
        |i: int|
            if 0 <= i < fields.len() {
                quoted(fields[i].0) + ":"@ + compact(fields[i].1)
            } else {
                Seq::empty()
            },
    )
}

/// The parts joined by commas, between an opening and a closing text.
pub fn enclose(open: &str, parts: &Vec<String>, close: &str) -> (text: String)
    ensures
        text@ == open@ + commas(texts(parts@)) + close@,
{
    let ghost plain = texts(parts@);
    let mut text = open.to_owned();
    assert(open@ + commas(plain.take(0)) =~= open@);
    for i in 0..parts.len()
        invariant
            plain == texts(parts@),
            text@ == open@ + commas(plain.take(i as int)),
    {
        assert(plain.take(i + 1).drop_last() =~= plain.take(i as int));
        assert(plain.take(i + 1).last() == parts@[i as int]@);
        if i > 0 {
            text.push_str(",");
        } else {
            assert(commas(plain.take(0)) =~= Seq::<char>::empty());
        }
        text.push_str(parts[i].as_str());
        assert(text@ =~= open@ + commas(plain.take(i + 1)));
    }
    assert(plain.take(plain.len() as int) =~= plain);
    text.push_str(close);
    text
}

/// Writes a value as JSON text without white space.
pub fn write_compact(value: &Json) -> (text: String)
    ensures
        text@ == compact(value@),
    decreases value,
{
    match value {
        Json::Null => "null".to_owned(),
        Json::Bool(b) => if *b {
            "true".to_owned()
        } else {
            "false".to_owned()
        },
        Json::Number(n) => n.clone(),
        Json::Text(t) => quote(t.as_str()),
        Json::Array(items) => {
            let mut parts: Vec<String> = Vec::new();
            for i in 0..items.len()
                invariant
                    *value == Json::Array(*items),
                    parts@.len() == i,
                    forall|k: int| 0 <= k < i ==> #[trigger] parts@[k]@ == compact(items@[k]@),
            {
                assert(decreases_to!(*value => value->Array_0));
                assert(decreases_to!(*items => items@));
                assert(decreases_to!(items@ => items@[i as int]));
                parts.push(write_compact(&items[i]));
            }
            assert(texts(parts@) =~= item_texts(value@->Array_0));
            enclose("[", &parts, "]")
        },
        Json::Object(fields) => {
            let mut parts: Vec<String> = Vec::new();
            for i in 0..fields.len()
                invariant
                    *value == Json::Object(*fields),
                    parts@.len() == i,
                    forall|k: int|
                        0 <= k < i ==> #[trigger] parts@[k]@ == quoted(fields@[k].0@) + ":"@
                            + compact(fields@[k].1@),
            {
                assert(decreases_to!(*value => value->Object_0));
                assert(decreases_to!(*fields => fields@));
                assert(decreases_to!(fields@ => fields@[i as int]));
                assert(decreases_to!(fields@[i as int] => fields@[i as int].1));
                let mut part = quote(fields[i].0.as_str());
                part.push_str(":");
                let inner = write_compact(&fields[i].1);
                part.push_str(inner.as_str());
                parts.push(part);
            }
            assert(texts(parts@) =~= field_texts(value@->Object_0));
            enclose("{", &parts, "}")
        },
    }
}

/// The entries of a list of pairs: for each key, what its last pair holds.
pub open spec fn entries(pairs: Seq<(String, String)>) -> Map<Seq<char>, Seq<char>>
    decreases pairs.len(),
{
    if pairs.len() == 0 {
        Map::empty()
    } else {
        entries(pairs.drop_last()).insert(pairs.last().0@, pairs.last().1@)
    }
}

/// The pairs over plain values.
pub open spec fn plain_pairs(pairs: Seq<(String, String)>) -> Seq<(Seq<char>, Seq<char>)> {
    Seq::new(pairs.len(), |i: int| (pairs[i].0@, pairs[i].1@))
}

/// A list of named texts that holds the entries.
pub open spec fn listing(entries: Map<Seq<char>, Seq<char>>) -> Seq<(Seq<char>, Seq<char>)> {
    choose|pairs: Seq<(Seq<char>, Seq<char>)>| #[trigger] last_texts(pairs) == entries
}

/// The JSON object whose one field `key` holds the entries as an object of
/// strings, as `serde_json` writes it.
pub open spec fn object_of(key: Seq<char>, entries: Map<Seq<char>, Seq<char>>) -> Seq<u8> {
    encode_utf8(written(texts_under(key, listing(entries))))
}

proof fn lemma_plain_entries(pairs: Seq<(String, String)>)
    ensures
        last_texts(plain_pairs(pairs)) == entries(pairs),
    decreases pairs.len(),
{
    if pairs.len() > 0 {
        lemma_plain_entries(pairs.drop_last());
        assert(plain_pairs(pairs).drop_last() =~= plain_pairs(pairs.drop_last()));
    }
}

/// The JSON text of the object whose one field `key` holds the pairs as an
/// object of strings. It depends on the entries alone, not on the order of the
/// pairs, and reads back as exactly the entries.
pub(crate) fn object_bytes(key: &str, pairs: &Vec<(String, String)>) -> (bytes: Vec<u8>)
    ensures
        bytes@ == object_of(key@, entries(pairs@)),
        holds_entries(bytes@, key@, entries(pairs@)),
{
    let mut inner: Vec<(String, Json)> = Vec::new();
    for i in 0..pairs.len()
        invariant
            inner@.len() == i,
            forall|k: int|
                0 <= k < i ==> (#[trigger] inner@[k]).0@ == pairs@[k].0@ && inner@[k].1@
                    == JsonModel::Text(pairs@[k].1@),
    {
        inner.push((pairs[i].0.clone(), Json::Text(pairs[i].1.clone())));
    }
    let held = Json::Object(inner);
    let ghost fields = plain_pairs(pairs@);
    let mut outer: Vec<(String, Json)> = Vec::new();
    outer.push((key.to_owned(), held));
    let value = Json::Object(outer);
    proof {
        let under = texts_under(key@, fields);
        assert(held@->Object_0 =~= under->Object_0[0].1->Object_0);
        assert(value@->Object_0 =~= under->Object_0);
        assert forall|i: int| 0 <= i < fields.len() implies numberless(
            (#[trigger] held@->Object_0[i]).1,
        ) by {
            assert(held@->Object_0[i].1 == JsonModel::Text(fields[i].1));
        }
        assert(numberless(held@));
        assert(value@->Object_0[0].1 == held@);
        assert(numberless(value@));
        lemma_plain_entries(pairs@);
        assert(last_texts(fields) == entries(pairs@));
        assert(last_texts(listing(entries(pairs@))) == entries(pairs@));
    }
    let text = render(&value);
    assert(text@ == written(texts_under(key@, listing(entries(pairs@)))));
    text.as_str().as_bytes_vec()
}

/// A field is the first of its name: where one stands at `i` and none of its
/// name before it, it is the one; where none has the name, there is none; and
/// what is no object has no field.
pub proof fn law_the_first_field_of_a_name(
    fields: Seq<(Seq<char>, JsonModel)>,
    key: Seq<char>,
    i: int,
    other: JsonModel,
)
    ensures
        0 <= i < fields.len() && fields[i].0 == key && (forall|j: int|
            0 <= j < i ==> (#[trigger] fields[j]).0 != key) ==> field(
            JsonModel::Object(fields),
            key,
        ) == Some(fields[i].1),
        (forall|j: int| 0 <= j < fields.len() ==> (#[trigger] fields[j]).0 != key) ==> field(
            JsonModel::Object(fields),
            key,
        ) is None,
        !(other is Object) ==> field(other, key) is None,
        items_of(Some(JsonModel::Array(seq![other]))) == Some(seq![other]),
        text_of(Some(JsonModel::Text(key))) == Some(key),
        !(other is Array) ==> items_of(Some(other)) is None,
        !(other is Text) ==> text_of(Some(other)) is None,
{
    lemma_first_field(fields, key, 0);
    if 0 <= i < fields.len() && fields[i].0 == key && (forall|j: int|
        0 <= j < i ==> (#[trigger] fields[j]).0 != key) {
        let k = choose|k: int|
            0 <= k < fields.len() && (#[trigger] fields[k]).0 == key && field_from(fields, key, 0)
                == Some(fields[k].1) && forall|j: int| 0 <= j < k ==> (#[trigger] fields[j]).0 != key;
        assert(fields[k].0 == key);
        assert(k == i);
    }
}

proof fn lemma_first_field(fields: Seq<(Seq<char>, JsonModel)>, key: Seq<char>, i: int)
    requires
        0 <= i,
    ensures
        field_from(fields, key, i) is Some ==> exists|k: int|
            i <= k < fields.len() && (#[trigger] fields[k]).0 == key && field_from(fields, key, i)
                == Some(fields[k].1) && forall|j: int| i <= j < k ==> (#[trigger] fields[j]).0 != key,
        field_from(fields, key, i) is None ==> forall|j: int|
            i <= j < fields.len() ==> (#[trigger] fields[j]).0 != key,
    decreases fields.len() - i,
{
    if i < fields.len() {
        if fields[i].0 == key {
            assert(fields[i].0 == key);
        } else {
            lemma_first_field(fields, key, i + 1);
            if field_from(fields, key, i) is Some {
                let k = choose|k: int|
                    i + 1 <= k < fields.len() && (#[trigger] fields[k]).0 == key && field_from(
                        fields,
                        key,
                        i + 1,
                    ) == Some(fields[k].1) && forall|j: int|
                        i + 1 <= j < k ==> (#[trigger] fields[j]).0 != key;
                assert(fields[k].0 == key);
            }
        }
    }
}

/// The text of a value is made of the texts of its parts: numbers as held,
/// strings as literals, arrays in square and objects in curly brackets, with
/// commas between the parts and a colon behind each name.
pub proof fn law_values_are_written_part_by_part(
    items: Seq<JsonModel>,
    fields: Seq<(Seq<char>, JsonModel)>,
    item: JsonModel,
    name: Seq<char>,
    number: Seq<char>,
)
    ensures
        compact(JsonModel::Null) == "null"@,
        compact(JsonModel::Bool(true)) == "true"@,
        compact(JsonModel::Bool(false)) == "false"@,
        compact(JsonModel::Number(number)) == number,
        compact(JsonModel::Text(name)) == quoted(name),
        compact(JsonModel::Array(Seq::empty())) == "["@ + "]"@,
        compact(JsonModel::Object(Seq::empty())) == "{"@ + "}"@,
        compact(JsonModel::Array(seq![item])) == "["@ + compact(item) + "]"@,
        compact(JsonModel::Object(seq![(name, item)])) == "{"@ + (quoted(name) + ":"@ + compact(item))
            + "}"@,
        items.len() > 0 ==> "["@ + commas(item_texts(items)) + ","@ + compact(item) + "]"@
            == compact(JsonModel::Array(items.push(item))),
        fields.len() > 0 ==> "{"@ + commas(field_texts(fields)) + ","@ + (quoted(name) + ":"@
            + compact(item)) + "}"@ == compact(JsonModel::Object(fields.push((name, item)))),
{
    let part = quoted(name) + ":"@ + compact(item);
    assert(item_texts(Seq::empty()) =~= Seq::<Seq<char>>::empty());
    assert(field_texts(Seq::empty()) =~= Seq::<Seq<char>>::empty());
    assert("["@ + Seq::<char>::empty() =~= "["@);
    assert("{"@ + Seq::<char>::empty() =~= "{"@);
    assert(item_texts(seq![item]) =~= seq![compact(item)]);
    assert(field_texts(seq![(name, item)]) =~= seq![part]);
    assert(item_texts(items.push(item)) =~= item_texts(items).push(compact(item)));
    assert(item_texts(items).push(compact(item)).drop_last() =~= item_texts(items));
    assert(field_texts(fields.push((name, item))) =~= field_texts(fields).push(part));
    assert(field_texts(fields).push(part).drop_last() =~= field_texts(fields));
    if items.len() > 0 {
        assert("["@ + commas(item_texts(items)) + ","@ + compact(item) + "]"@ =~= "["@ + (commas(
            item_texts(items),
        ) + ","@ + compact(item)) + "]"@);
    }
    if fields.len() > 0 {
        assert("{"@ + commas(field_texts(fields)) + ","@ + part + "}"@ =~= "{"@ + (commas(
            field_texts(fields),
        ) + ","@ + part) + "}"@);
    }
}

/// The last pair of a key is its entry, and a key without a pair has none.
pub proof fn law_the_last_pair_of_a_key(pairs: Seq<(String, String)>, i: int, key: Seq<char>)
    ensures
        0 <= i < pairs.len() && pairs[i].0@ == key && (forall|j: int|
            i < j < pairs.len() ==> (#[trigger] pairs[j]).0@ != key) ==> entries(pairs).contains_key(
            key,
        ) && entries(pairs)[key] == pairs[i].1@,
        (forall|j: int| 0 <= j < pairs.len() ==> (#[trigger] pairs[j]).0@ != key) ==> !entries(
            pairs,
        ).contains_key(key),
    decreases pairs.len(),
{
    if pairs.len() > 0 {
        let head = pairs.drop_last();
        law_the_last_pair_of_a_key(head, i, key);
        assert forall|j: int| 0 <= j < head.len() implies head[j] == pairs[j] by {}
        if 0 <= i < pairs.len() - 1 && (forall|j: int|
            i < j < pairs.len() ==> (#[trigger] pairs[j]).0@ != key) {
            assert(pairs[pairs.len() - 1].0@ != key);
            assert forall|j: int| i < j < head.len() implies (#[trigger] head[j]).0@ != key by {
                assert(pairs[j].0@ != key);
            }
        }
        if forall|j: int| 0 <= j < pairs.len() ==> (#[trigger] pairs[j]).0@ != key {
            assert(pairs[pairs.len() - 1].0@ != key);
            assert forall|j: int| 0 <= j < head.len() implies (#[trigger] head[j]).0@ != key by {
                assert(pairs[j].0@ != key);
            }
        }
    }
}

} // verus!
