//! The stored form of a list: one JSON object whose key `ids` holds an array
//! of objects, each with a string under `email` and a string under `name`,
//! followed by a line feed.

use vstd::prelude::*;
use crate::error::GitIdError;
use crate::identity::{GitId, Identity};
use crate::json::{
    characters, doc_of, docs_of, elements, empty_fields, field, json_parse, json_text, list_value,
    no_fields, print_value, read_value, record_value, set_field, text_value, Doc,
};
use crate::list::{models, GitIds};

verus! {

/// The JSON object that stands for one identity.
pub open spec fn entry_doc(id: Identity) -> Doc {
    Doc::Record(
        empty_fields().insert("email"@, Doc::Text(id.email)).insert("name"@, Doc::Text(id.name)),
    )
}

/// The JSON document that stands for a list.
pub open spec fn store_doc(s: Seq<Identity>) -> Doc {
    Doc::Record(empty_fields().insert("ids"@, Doc::List(s.map_values(|id: Identity| entry_doc(id)))))
}

/// The identity that a JSON document stands for: it must be an object with
/// a string under `email` and a string under `name`. Other keys are passed
/// over.
pub open spec fn entry_of(doc: Doc) -> Option<Identity> {
    if doc is Record && doc->Record_0.contains_key("email"@) && doc->Record_0["email"@] is Text
        && doc->Record_0.contains_key("name"@) && doc->Record_0["name"@] is Text {
        Some(
            Identity {
                email: doc->Record_0["email"@]->Text_0,
                name: doc->Record_0["name"@]->Text_0,
            },
        )
    } else {
        None
    }
}

/// The identities that the documents of `items` stand for, as far as each
/// stands for one.
pub open spec fn entries_of(items: Seq<Doc>) -> Seq<Identity> {
    items.map_values(|d: Doc| entry_of(d)->Some_0)
}

/// Every document of `items` stands for an identity.
pub open spec fn all_entries(items: Seq<Doc>) -> bool {
    forall|i: int| 0 <= i < items.len() ==> (#[trigger] entry_of(items[i])) is Some
}

/// The list that a JSON document stands for: it must be an object with an
/// array under `ids`, each element of which stands for an identity. Other
/// keys are passed over.
pub open spec fn list_of(doc: Doc) -> Option<Seq<Identity>> {
    if doc is Record && doc->Record_0.contains_key("ids"@) && doc->Record_0["ids"@] is List
        && all_entries(doc->Record_0["ids"@]->List_0) {
        Some(entries_of(doc->Record_0["ids"@]->List_0))
    } else {
        None
    }
}

/// The text that is written for a list: its document printed, then a line
/// feed. Nothing where the document cannot be printed.
pub open spec fn written(s: Seq<Identity>) -> Option<Seq<char>> {
    match json_text(store_doc(s)) {
        Some(text) => Some(text.push('\n')),
        None => None,
    }
}

/// The list that is read from a text: the text must be JSON, and the
/// document must stand for a list.
pub open spec fn stored(text: Seq<char>) -> Option<Seq<Identity>> {
    match json_parse(text) {
        Some(doc) => list_of(doc),
        None => None,
    }
}

/// The keys `email` and `name` differ.
proof fn lemma_keys_differ()
    ensures
        "email"@ != "name"@,
{
    reveal_strlit("email");
    reveal_strlit("name");
    assert("email"@.len() == 5);
    assert("name"@.len() == 4);
}

/// The document of an identity stands for that identity.
pub proof fn lemma_entry_round_trip(id: Identity)
    ensures
        entry_of(entry_doc(id)) == Some(id),
{
    lemma_keys_differ();
}

/// The document of a list stands for that list: reading the list out of
/// the document that was built for it gives the list back.
pub proof fn lemma_document_round_trip(s: Seq<Identity>)
    ensures
        list_of(store_doc(s)) == Some(s),
{
    let items = s.map_values(|id: Identity| entry_doc(id));
    assert forall|i: int| 0 <= i < items.len() implies (#[trigger] entry_of(items[i])) is Some by {
        lemma_entry_round_trip(s[i]);
    }
    assert(entries_of(items) =~= s) by {
        assert forall|i: int| 0 <= i < s.len() implies entries_of(items)[i] == s[i] by {
            lemma_entry_round_trip(s[i]);
        }
    }
}

/// A text from which `serde_json` reads the document of a list is read as
/// that list.
pub proof fn lemma_store_reads_its_document(s: Seq<Identity>, text: Seq<char>)
    ensures
        json_parse(text) == Some(store_doc(s)) ==> stored(text) == Some(s),
{
    lemma_document_round_trip(s);
}

/// The JSON value of one identity.
pub fn value_of_identity(id: &GitId) -> (value: serde_json::Value)
    ensures
        doc_of(value) == entry_doc(id@),
{
    let mut fields = no_fields();
    set_field(&mut fields, "email".to_owned(), text_value(id.email.clone()));
    set_field(&mut fields, "name".to_owned(), text_value(id.name.clone()));
    record_value(fields)
}

/// The identity that a JSON value stands for, if it stands for one.
pub fn identity_of_value(value: &serde_json::Value) -> (out: Option<GitId>)
    ensures
        match out {
            Some(id) => entry_of(doc_of(*value)) == Some(id@),
            None => entry_of(doc_of(*value)) is None,
        },
{
    let email = match field(value, "email") {
        Some(inner) => match characters(inner) {
            Some(text) => text,
            None => { return None; },
        },
        None => { return None; },
    };
    let name = match field(value, "name") {
        Some(inner) => match characters(inner) {
            Some(text) => text,
            None => { return None; },
        },
        None => { return None; },
    };
    Some(GitId::new(email, name))
}

/// The JSON value of a list.
pub fn document_of(list: &GitIds) -> (value: serde_json::Value)
    ensures
        doc_of(value) == store_doc(list@),
{
    let mut items: Vec<serde_json::Value> = Vec::new();
    let mut k: usize = 0;
    while k < list.ids.len()
        invariant
            k <= list.ids.len(),
            docs_of(items@) == list@.take(k as int).map_values(|id: Identity| entry_doc(id)),
        decreases list.ids.len() - k,
    {
        let item = value_of_identity(&list.ids[k]);
        proof {
            let upto = list@.take(k + 1);
            assert(upto == list@.take(k as int).push(list.ids@[k as int]@));
            assert(docs_of(items@.push(item)) == docs_of(items@).push(doc_of(item)));
            assert(upto.map_values(|id: Identity| entry_doc(id)) == docs_of(items@).push(
                doc_of(item),
            ));
        }
        items.push(item);
        k += 1;
    }
    proof {
        assert(list@.take(k as int) == list@);
    }
    let mut fields = no_fields();
    set_field(&mut fields, "ids".to_owned(), list_value(items));
    record_value(fields)
}

/// The list that a JSON value stands for; `CorruptStore` where it stands
/// for none.
pub fn list_of_document(value: &serde_json::Value) -> (out: Result<GitIds, GitIdError>)
    ensures
        match out {
            Ok(list) => list_of(doc_of(*value)) == Some(list@),
            Err(e) => e == GitIdError::CorruptStore && list_of(doc_of(*value)) is None,
        },
{
    let items = match field(value, "ids") {
        Some(inner) => match elements(inner) {
            Some(items) => items,
            None => { return Err(GitIdError::CorruptStore); },
        },
        None => { return Err(GitIdError::CorruptStore); },
    };
    let ghost docs = docs_of(items@);
    assert(doc_of(*value)->Record_0["ids"@]->List_0 == docs);
    let mut ids: Vec<GitId> = Vec::new();
    let mut k: usize = 0;
    while k < items.len()
        invariant
            k <= items.len(),
            docs == docs_of(items@),
            doc_of(*value) is Record,
            doc_of(*value)->Record_0.contains_key("ids"@),
            doc_of(*value)->Record_0["ids"@] == Doc::List(docs),
            forall|i: int| 0 <= i < k ==> (#[trigger] entry_of(docs[i])) is Some,
            models(ids@) == entries_of(docs.take(k as int)),
        decreases items.len() - k,
    {
        match identity_of_value(&items[k]) {
            Some(id) => {
                proof {
                    assert(docs[k as int] == doc_of(items@[k as int]));
                    assert(docs.take(k + 1) == docs.take(k as int).push(docs[k as int]));
                    assert(models(ids@.push(id)) == models(ids@).push(id@));
                    assert(entries_of(docs.take(k + 1)) == entries_of(docs.take(k as int)).push(
                        id@,
                    ));
                }
                ids.push(id);
            },
            None => {
                proof {
                    assert(docs[k as int] == doc_of(items@[k as int]));
                    assert(entry_of(docs[k as int]) is None);
                }
                return Err(GitIdError::CorruptStore);
            },
        }
        k += 1;
    }
    proof {
        assert(docs.take(k as int) == docs);
    }
    Ok(GitIds { ids })
}

/// Ends the text that `serde_json` printed for a list with a line feed;
/// `EncodeError` where it printed none.
pub fn framed(printed: Result<String, serde_json::Error>) -> (out: Result<String, GitIdError>)
    ensures
        match printed {
            Ok(text) => out is Ok && out->Ok_0@ == text@.push('\n'),
            Err(_) => out is Err && out->Err_0 == GitIdError::EncodeError,
        },
{
    match printed {
        Ok(text) => {
            let mut text = text;
            let ghost before = text@;
            text.append("\n");
            proof {
                reveal_strlit("\n");
                assert(text@ == before.push('\n'));
            }
            Ok(text)
        },
        Err(_) => Err(GitIdError::EncodeError),
    }
}

/// The list that `serde_json` read, if it read a value and the value stands
/// for a list; `CorruptStore` otherwise.
pub fn list_of_parsed(parsed: Result<serde_json::Value, serde_json::Error>) -> (out: Result<
    GitIds,
    GitIdError,
>)
    ensures
        match parsed {
            Ok(value) => match out {
                Ok(list) => list_of(doc_of(value)) == Some(list@),
                Err(e) => e == GitIdError::CorruptStore && list_of(doc_of(value)) is None,
            },
            Err(_) => out is Err && out->Err_0 == GitIdError::CorruptStore,
        },
{
    match parsed {
        Ok(value) => list_of_document(&value),
        Err(_) => Err(GitIdError::CorruptStore),
    }
}

/// The text to store for a list: `written`, as far as the document can be
/// printed.
pub fn write_ids(list: &GitIds) -> (out: Result<String, GitIdError>)
    ensures
        match out {
            Ok(text) => written(list@) == Some(text@),
            Err(e) => e == GitIdError::EncodeError && written(list@) is None,
        },
{
    let value = document_of(list);
    framed(print_value(&value))
}

/// The list that a store holds. A store that is absent holds none; one
/// that is present holds the list `stored`, or is corrupt.
pub fn read_ids(contents: Option<&str>) -> (out: Result<Option<GitIds>, GitIdError>)
    ensures
        contents is None ==> out is Ok && out->Ok_0 is None,
        contents is Some ==> match out {
            Ok(list) => list is Some && stored(contents->Some_0@) == Some(list->Some_0@),
            Err(e) => e == GitIdError::CorruptStore && stored(contents->Some_0@) is None,
        },
{
    match contents {
        None => Ok(None),
        Some(text) => match list_of_parsed(read_value(text)) {
            Ok(list) => Ok(Some(list)),
            Err(e) => Err(e),
        },
    }
}

} // verus!
