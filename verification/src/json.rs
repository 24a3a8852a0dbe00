//! JSON documents, as far as the dispatcher reads and writes them.
//!
//! The documents are `serde_json` values. A document is known here by its
//! compact text; what `serde_json` finds in a document is named as a
//! function of that text, and nothing more is assumed of it.

use crate::service::same_text;
use vstd::prelude::*;

verus! {

/// Declares the outside type of a JSON value. Nothing is known of its
/// inside.
#[verifier::external_type_specification]
#[verifier::external_body]
pub struct ExValue(serde_json::Value);

/// The compact JSON text of a value: what its `Display` impl writes.
pub uninterp spec fn json_text(value: serde_json::Value) -> Seq<char>;

/// The compact text of the document that `serde_json::from_str` reads from
/// `text`, if it reads one.
pub uninterp spec fn json_parsed(text: Seq<char>) -> Option<Seq<char>>;

/// The entries of the document `doc` as key and compact text, in the order
/// in which `serde_json::Map::iter` yields them, if `doc` is an object.
pub uninterp spec fn json_fields(doc: Seq<char>) -> Option<Seq<(Seq<char>, Seq<char>)>>;

/// The compact texts of the elements of `doc`, if `doc` is an array.
pub uninterp spec fn json_elements(doc: Seq<char>) -> Option<Seq<Seq<char>>>;

/// The string that `doc` holds, if `doc` is a string.
pub uninterp spec fn json_string_value(doc: Seq<char>) -> Option<Seq<char>>;

/// The number that `doc` holds, if `doc` is a number that `u64` can hold.
pub uninterp spec fn json_number_value(doc: Seq<char>) -> Option<u64>;

/// The compact text of the JSON string that holds `text`.
pub uninterp spec fn json_string(text: Seq<char>) -> Seq<char>;

/// A JSON document. Its view is its compact text.
pub struct Json {
    pub(crate) value: serde_json::Value,
}

impl View for Json {
    type V = Seq<char>;

    closed spec fn view(&self) -> Seq<char> {
        json_text(self.value)
    }
}

/// The views of a sequence of documents.
pub open spec fn texts_of(docs: Seq<Json>) -> Seq<Seq<char>> {
    docs.map_values(|doc: Json| doc@)
}

/// The views of a sequence of keyed documents.
pub open spec fn fields_of(fields: Seq<(String, Json)>) -> Seq<(Seq<char>, Seq<char>)> {
    fields.map_values(|field: (String, Json)| (field.0@, field.1@))
}

/// The character sequences of a sequence of strings.
pub open spec fn views(texts: Seq<String>) -> Seq<Seq<char>> {
    texts.map_values(|text: String| text@)
}

/// The text under the first entry with the key `key`, if there is one.
pub open spec fn field_of(fields: Seq<(Seq<char>, Seq<char>)>, key: Seq<char>) -> Option<
    Seq<char>,
>
    decreases fields.len(),
{
    if fields.len() == 0 {
        None
    } else if fields[0].0 == key {
        Some(fields[0].1)
    } else {
        field_of(fields.drop_first(), key)
    }
}

/// The string under `key` in an object's entries, if a string is there.
pub open spec fn string_field(fields: Seq<(Seq<char>, Seq<char>)>, key: Seq<char>) -> Option<
    Seq<char>,
> {
    match field_of(fields, key) {
        Some(doc) => json_string_value(doc),
        None => None,
    }
}

/// What `read` makes of each element of a list, in order, if it makes
/// something of every one of them.
pub open spec fn each_of<D, T>(docs: Seq<D>, read: spec_fn(D) -> Option<T>) -> Option<Seq<T>>
    decreases docs.len(),
{
    if docs.len() == 0 {
        Some(Seq::empty())
    } else {
        match (each_of(docs.drop_last(), read), read(docs.last())) {
            (Some(front), Some(last)) => Some(front.push(last)),
            _ => None,
        }
    }
}

/// If `read` fails within the first `k` elements of a list, it fails on the
/// whole list.
pub proof fn lemma_each_of_prefix<D, T>(docs: Seq<D>, read: spec_fn(D) -> Option<T>, k: int)
    requires
        0 <= k <= docs.len(),
        each_of(docs.take(k), read) is None,
    ensures
        each_of(docs, read) is None,
    decreases docs.len() - k,
{
    if k < docs.len() {
        assert(docs.take(k + 1).drop_last() =~= docs.take(k));
        lemma_each_of_prefix(docs, read, k + 1);
    } else {
        assert(docs.take(k) =~= docs);
    }
}

/// One more element read extends what was read of the elements before it.
pub proof fn lemma_each_of_step<D, T>(docs: Seq<D>, read: spec_fn(D) -> Option<T>, k: int)
    requires
        0 <= k < docs.len(),
    ensures
        each_of(docs.take(k + 1), read) == (match (each_of(docs.take(k), read), read(docs[k])) {
            (Some(front), Some(last)) => Some(front.push(last)),
            _ => None,
        }),
        each_of(docs.take(0), read) == Some(Seq::<T>::empty()),
{
    assert(docs.take(k + 1).drop_last() =~= docs.take(k));
    assert(docs.take(k + 1).last() == docs[k]);
    assert(docs.take(0) =~= Seq::<D>::empty());
}

impl Json {
    /// Reads a document with `serde_json::from_str`. Whether a text is read,
    /// and as which document, depends on the text alone.
    #[verifier::external_body]
    pub(crate) fn parse(text: &str) -> (doc: Option<Json>)
        ensures
            doc matches Some(read) ==> json_parsed(text@) == Some(read@),
            doc is None ==> json_parsed(text@) is None,
    {
        match serde_json::from_str::<serde_json::Value>(text) {
            Ok(value) => Some(Json { value }),
            Err(_) => None,
        }
    }

    /// Writes the document as compact text, through the `Display` impl of
    /// `serde_json::Value`.
    #[verifier::external_body]
    pub(crate) fn text(&self) -> (text: String)
        ensures
            text@ == json_text(self.value),
            text@ == self@,
    {
        self.value.to_string()
    }

    /// The entries of an object (`serde_json::Value::as_object`, then
    /// `serde_json::Map::iter`), copied out in the iterator's order.
    #[verifier::external_body]
    pub(crate) fn fields(&self) -> (fields: Option<Vec<(String, Json)>>)
        ensures
            fields matches Some(found) ==> json_fields(self@) == Some(fields_of(found@)),
            fields is None ==> json_fields(self@) is None,
    {
        self.value.as_object().map(
            |map|
                map.iter().map(|(key, value)| (key.clone(), Json { value: value.clone() })).collect(),
        )
    }

    /// The elements of an array (`serde_json::Value::as_array`), copied out
    /// in order.
    #[verifier::external_body]
    pub(crate) fn elements(&self) -> (elements: Option<Vec<Json>>)
        ensures
            elements matches Some(found) ==> json_elements(self@) == Some(texts_of(found@)),
            elements is None ==> json_elements(self@) is None,
    {
        self.value.as_array().map(
            |items| items.iter().map(|value| Json { value: value.clone() }).collect(),
        )
    }

    /// The string that the document holds (`serde_json::Value::as_str`).
    #[verifier::external_body]
    pub(crate) fn string_value(&self) -> (held: Option<String>)
        ensures
            held matches Some(text) ==> json_string_value(self@) == Some(text@),
            held is None ==> json_string_value(self@) is None,
    {
        self.value.as_str().map(|text| text.to_owned())
    }

    /// The number that the document holds (`serde_json::Value::as_u64`).
    #[verifier::external_body]
    pub(crate) fn number_value(&self) -> (held: Option<u64>)
        ensures
            held == json_number_value(self@),
    {
        self.value.as_u64()
    }

    /// The document that is the string `text` (`serde_json::Value::String`).
    #[verifier::external_body]
    pub(crate) fn string(text: &str) -> (doc: Json)
        ensures
            doc@ == json_string(text@),
    {
        Json { value: serde_json::Value::String(text.to_owned()) }
    }
}

/// The document under the first entry with the key `key`.
pub(crate) fn find_field<'a>(fields: &'a Vec<(String, Json)>, key: &str) -> (found: Option<
    &'a Json,
>)
    ensures
        found matches Some(doc) ==> field_of(fields_of(fields@), key@) == Some(doc@),
        found is None ==> field_of(fields_of(fields@), key@) is None,
{
    let ghost all = fields_of(fields@);
    let mut i: usize = 0;
    assert(all.skip(0) =~= all);
    while i < fields.len()
        invariant
            i <= fields@.len(),
            all == fields_of(fields@),
            field_of(all, key@) == field_of(all.skip(i as int), key@),
        decreases fields@.len() - i,
    {
        assert(all.skip(i as int).drop_first() =~= all.skip(i + 1));
        assert(all.skip(i as int)[0] == (fields@[i as int].0@, fields@[i as int].1@));
        if same_text(fields[i].0.as_str(), key) {
            return Some(&fields[i].1);
        }
        i = i + 1;
    }
    None
}

/// The string under `key`.
pub(crate) fn find_string(fields: &Vec<(String, Json)>, key: &str) -> (found: Option<String>)
    ensures
        found matches Some(text) ==> string_field(fields_of(fields@), key@) == Some(text@),
        found is None ==> string_field(fields_of(fields@), key@) is None,
{
    match find_field(fields, key) {
        Some(doc) => doc.string_value(),
        None => None,
    }
}

/// The compact texts of a list of documents.
pub(crate) fn texts(docs: &Vec<Json>) -> (out: Vec<String>)
    ensures
        views(out@) == texts_of(docs@),
{
    let mut out: Vec<String> = Vec::new();
    let mut i: usize = 0;
    while i < docs.len()
        invariant
            i <= docs@.len(),
            out@.len() == i,
            forall|k: int| 0 <= k < i ==> (#[trigger] out@[k])@ == docs@[k]@,
        decreases docs@.len() - i,
    {
        out.push(docs[i].text());
        i = i + 1;
    }
    assert(views(out@) =~= texts_of(docs@));
    out
}

} // verus!
