//! What a refresh makes of the gateway's answers: the model catalog, the
//! profile list, and the active profile.
//!
//! A failed, declined, or malformed catalog is skipped rather than pushed:
//! pushing a bad snapshot would clear pickers that still hold a usable list. A
//! gateway without profile support is a state, not an error: its half degrades
//! to empty.

use crate::gateway::{is_success, success};
use crate::json::{copy_all, field, items_of, models, parse, parsed, text_of, Json, JsonModel};
use crate::menu::{model_entries, CatalogModel, ModelEntry};
use crate::text::{text_option, texts};
use vstd::prelude::*;

verus! {

/// A list of values over plain values.
pub open spec fn optional_list(list: Option<Vec<Json>>) -> Option<Seq<JsonModel>> {
    match list {
        Some(items) => Some(models(items@)),
        None => None,
    }
}

/// The models that a catalog body lists: the items of its `data` array.
pub open spec fn listed(body: JsonModel) -> Option<Seq<JsonModel>> {
    items_of(field(body, "data"@))
}

/// The models that a catalog body lists, none where it has no `data` array.
pub fn listed_models(body: &Json) -> (list: Option<Vec<Json>>)
    ensures
        optional_list(list) == listed(body@),
{
    match body.get("data") {
        Some(data) => match data.as_array() {
            Some(items) => Some(copy_all(items)),
            None => None,
        },
        None => None,
    }
}

/// The catalog to push from a gateway's answer: none where it declined, or its
/// body is not JSON, or has no `data` array.
pub fn catalog_models(status: u16, body: &[u8]) -> (list: Option<Vec<Json>>)
    ensures
        optional_list(list) == if !success(status) {
            None
        } else {
            match parsed(body@) {
                Some(value) => listed(value),
                None => None,
            }
        },
{
    if !is_success(status) {
        return None;
    }
    match parse(body) {
        Some(value) => listed_models(&value),
        None => None,
    }
}

/// The menu's entry of a catalog model, given whether the model can chat.
pub open spec fn entry_of(model: JsonModel, chat: bool) -> ModelEntry {
    ModelEntry { id: text_of(field(model, "id"@)), chat }
}

/// The menu's entries of the catalog models, given which of them can chat.
pub fn menu_models(list: &Vec<Json>, chat: &Vec<bool>) -> (entries: Vec<CatalogModel>)
    requires
        chat@.len() == list@.len(),
    ensures
        model_entries(entries@) == Seq::new(
            list@.len(),
            |i: int| entry_of(models(list@)[i], chat@[i]),
        ),
{
    let mut entries: Vec<CatalogModel> = Vec::new();
    for i in 0..list.len()
        invariant
            chat@.len() == list@.len(),
            entries@.len() == i,
            forall|k: int|
                0 <= k < i ==> (ModelEntry {
                    id: text_option((#[trigger] entries@[k]).id),
                    chat: entries@[k].chat,
                }) == entry_of(list@[k]@, chat@[k]),
    {
        let id = match list[i].get("id") {
            Some(value) => match value.as_str() {
                Some(text) => Some(text.to_owned()),
                None => None,
            },
            None => None,
        };
        entries.push(CatalogModel { id, chat: chat[i] });
    }
    assert(model_entries(entries@) =~= Seq::new(
        list@.len(),
        |i: int| entry_of(models(list@)[i], chat@[i]),
    ));
    entries
}

/// The profile names of a gateway's answer, given what its body decodes to:
/// none where the gateway declined or the body does not decode.
pub fn fetched_profiles(status: u16, decoded: Option<Vec<String>>) -> (profiles: Option<
    Vec<String>,
>)
    ensures
        profiles == if success(status) {
            decoded
        } else {
            None
        },
{
    if is_success(status) {
        decoded
    } else {
        None
    }
}

/// The active profile of a gateway's answer, given what its body decodes to:
/// none where the gateway declined, the body does not decode, or it names no
/// profile.
pub fn fetched_active(status: u16, decoded: Option<Option<String>>) -> (active: Option<String>)
    ensures
        active == match decoded {
            Some(named) => if success(status) {
                named
            } else {
                None
            },
            None => None,
        },
{
    if is_success(status) {
        match decoded {
            Some(named) => named,
            None => None,
        }
    } else {
        None
    }
}

/// The profile names to publish: none at all where the list could not be
/// fetched, rather than stale ones.
pub fn published_profiles(profiles: Option<Vec<String>>) -> (names: Vec<String>)
    ensures
        texts(names@) == match profiles {
            Some(list) => texts(list@),
            None => Seq::empty(),
        },
{
    match profiles {
        Some(list) => list,
        None => {
            let names: Vec<String> = Vec::new();
            assert(texts(names@) =~= Seq::empty());
            names
        },
    }
}

/// The catalog is the array under `data`: where the first field of that name
/// holds an array, its items are listed, in order; anything else lists none.
pub proof fn law_the_catalog_is_the_data_array(
    fields: Seq<(Seq<char>, JsonModel)>,
    i: int,
    items: Seq<JsonModel>,
    other: JsonModel,
)
    requires
        0 <= i < fields.len(),
        fields[i].0 == "data"@,
        forall|j: int| 0 <= j < i ==> (#[trigger] fields[j]).0 != "data"@,
    ensures
        fields[i].1 == JsonModel::Array(items) ==> listed(JsonModel::Object(fields)) == Some(items),
        !(fields[i].1 is Array) ==> listed(JsonModel::Object(fields)) is None,
        !(other is Object) ==> listed(other) is None,
{
    crate::json::law_the_first_field_of_a_name(fields, "data"@, i, fields[i].1);
}

/// A menu entry is named by the model's `id`, where that is a text, and chats
/// as was said of the model.
pub proof fn law_an_entry_is_named_by_its_id(
    fields: Seq<(Seq<char>, JsonModel)>,
    i: int,
    id: Seq<char>,
    other: JsonModel,
    chat: bool,
)
    ensures
        entry_of(other, chat).chat == chat,
        !(other is Object) ==> entry_of(other, chat).id is None,
        0 <= i < fields.len() && fields[i].0 == "id"@ && (forall|j: int|
            0 <= j < i ==> (#[trigger] fields[j]).0 != "id"@) ==> {
            &&& fields[i].1 == JsonModel::Text(id) ==> entry_of(
                JsonModel::Object(fields),
                chat,
            ).id == Some(id)
            &&& !(fields[i].1 is Text) ==> entry_of(JsonModel::Object(fields), chat).id is None
        },
{
    crate::json::law_the_first_field_of_a_name(fields, "id"@, i, other);
}

} // verus!
