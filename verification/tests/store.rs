use gitid::error::GitIdError;
use gitid::identity::GitId;
use gitid::list::GitIds;
use gitid::store::{
    document_of, framed, identity_of_value, list_of_document, list_of_parsed, read_ids,
    value_of_identity, write_ids,
};
use serde_json::Value;

fn book(entries: &[(&str, &str)]) -> GitIds {
    GitIds { ids: entries.iter().map(|(e, n)| GitId::new(e, n)).collect() }
}

fn object(fields: &[(&str, Value)]) -> Value {
    let mut map = serde_json::Map::new();
    for (key, value) in fields {
        map.insert(key.to_string(), value.clone());
    }
    Value::Object(map)
}

fn text(s: &str) -> Value {
    Value::String(s.to_string())
}

fn failure() -> serde_json::Error {
    serde_json::from_str::<Value>("{").unwrap_err()
}

#[test]
fn empty_list_is_written_as_an_empty_array() {
    assert_eq!(write_ids(&GitIds::new()), Ok("{\"ids\":[]}\n".to_string()));
}

#[test]
fn list_is_written_as_one_line_of_json() {
    let list = book(&[("a@x.com", "A"), ("b@x.com", "Bee")]);
    assert_eq!(
        write_ids(&list),
        Ok("{\"ids\":[{\"email\":\"a@x.com\",\"name\":\"A\"},{\"email\":\"b@x.com\",\"name\":\"Bee\"}]}\n".to_string())
    );
}

#[test]
fn written_text_escapes_what_json_escapes() {
    let list = book(&[("a\"b", "back\\slash\nline")]);
    assert_eq!(
        write_ids(&list),
        Ok("{\"ids\":[{\"email\":\"a\\\"b\",\"name\":\"back\\\\slash\\nline\"}]}\n".to_string())
    );
}

#[test]
fn absent_store_holds_no_list() {
    assert!(matches!(read_ids(None), Ok(None)));
}

#[test]
fn store_is_read_back_as_it_was_written() {
    let lists = [
        book(&[]),
        book(&[("a@x.com", "A")]),
        book(&[("z@x.com", "Z"), ("a@x.com", "A"), ("a@x.com", "A")]),
        book(&[("quote\"@x.com", "tab\there"), ("ü@x.com", "Zoë \u{1F600}"), ("", "")]),
        book(&[("back\\slash", "line\nfeed\r\u{0}\u{7f}")]),
    ];
    for list in lists {
        let written = write_ids(&list).unwrap();
        let read = read_ids(Some(&written)).unwrap().unwrap();
        assert_eq!(read.ids, list.ids);
    }
}

#[test]
fn store_is_read_from_text_with_spaces_and_other_keys() {
    let text = " { \"version\" : 1, \"ids\" : [ { \"name\" : \"A\", \"note\": null, \"email\" : \"a@x.com\" } ] } \n";
    let list = read_ids(Some(text)).unwrap().unwrap();
    assert_eq!(list.ids, vec![GitId::new("a@x.com", "A")]);
}

#[test]
fn store_that_is_no_json_is_corrupt() {
    for text in ["", "not json", "{", "{\"ids\":[", "{\"ids\":[]} x", "{'ids':[]}"] {
        assert!(matches!(read_ids(Some(text)), Err(GitIdError::CorruptStore)));
    }
}

#[test]
fn store_of_another_shape_is_corrupt() {
    let texts = [
        "[]",
        "null",
        "\"ids\"",
        "{}",
        "{\"id\":[]}",
        "{\"ids\":3}",
        "{\"ids\":{}}",
        "{\"ids\":[3]}",
        "{\"ids\":[{\"email\":\"a@x.com\"}]}",
        "{\"ids\":[{\"name\":\"A\"}]}",
        "{\"ids\":[{\"email\":1,\"name\":\"A\"}]}",
        "{\"ids\":[{\"email\":\"a@x.com\",\"name\":null}]}",
        "{\"ids\":[{\"email\":\"a@x.com\",\"name\":\"A\"},[]]}",
    ];
    for text in texts {
        assert!(matches!(read_ids(Some(text)), Err(GitIdError::CorruptStore)));
    }
}

#[test]
fn value_of_identity_is_an_object_with_two_strings() {
    let value = value_of_identity(&GitId::new("a@x.com", "A"));
    assert_eq!(value, object(&[("email", text("a@x.com")), ("name", text("A"))]));
}

#[test]
fn document_of_list_holds_the_entries_under_ids() {
    let value = document_of(&book(&[("b@x.com", "B"), ("a@x.com", "A")]));
    let expected = object(&[(
        "ids",
        Value::Array(vec![
            object(&[("email", text("b@x.com")), ("name", text("B"))]),
            object(&[("email", text("a@x.com")), ("name", text("A"))]),
        ]),
    )]);
    assert_eq!(value, expected);
}

#[test]
fn identity_of_value_reads_an_object_with_two_strings() {
    let value = object(&[("name", text("A")), ("email", text("a@x.com")), ("age", Value::Null)]);
    assert_eq!(identity_of_value(&value), Some(GitId::new("a@x.com", "A")));
}

#[test]
fn identity_of_value_refuses_other_values() {
    assert_eq!(identity_of_value(&Value::Null), None);
    assert_eq!(identity_of_value(&text("a@x.com")), None);
    assert_eq!(identity_of_value(&Value::Array(vec![text("a@x.com"), text("A")])), None);
    assert_eq!(identity_of_value(&object(&[("email", text("a@x.com"))])), None);
    assert_eq!(identity_of_value(&object(&[("name", text("A"))])), None);
    assert_eq!(identity_of_value(&object(&[("email", Value::Bool(true)), ("name", text("A"))])), None);
    assert_eq!(identity_of_value(&object(&[("email", text("a")), ("name", Value::Array(vec![]))])), None);
}

#[test]
fn list_of_document_reads_what_document_of_built() {
    let list = book(&[("b@x.com", "B"), ("a@x.com", "A"), ("b@x.com", "B")]);
    let read = list_of_document(&document_of(&list)).unwrap();
    assert_eq!(read.ids, list.ids);
}

#[test]
fn list_of_document_refuses_other_values() {
    assert!(matches!(list_of_document(&Value::Null), Err(GitIdError::CorruptStore)));
    assert!(matches!(list_of_document(&Value::Array(vec![])), Err(GitIdError::CorruptStore)));
    assert!(matches!(list_of_document(&object(&[("ids", text("x"))])), Err(GitIdError::CorruptStore)));
    let one_bad = object(&[(
        "ids",
        Value::Array(vec![object(&[("email", text("a")), ("name", text("A"))]), Value::Null]),
    )]);
    assert!(matches!(list_of_document(&one_bad), Err(GitIdError::CorruptStore)));
}

#[test]
fn framed_ends_the_text_with_a_line_feed() {
    assert_eq!(framed(Ok("{}".to_string())), Ok("{}\n".to_string()));
    assert_eq!(framed(Ok(String::new())), Ok("\n".to_string()));
}

#[test]
fn framed_turns_a_failure_into_encode_error() {
    assert_eq!(framed(Err(failure())), Err(GitIdError::EncodeError));
}

#[test]
fn list_of_parsed_turns_a_failure_into_corrupt_store() {
    assert!(matches!(list_of_parsed(Err(failure())), Err(GitIdError::CorruptStore)));
}

#[test]
fn list_of_parsed_reads_a_value() {
    let value = object(&[("ids", Value::Array(vec![object(&[("email", text("a")), ("name", text("A"))])]))]);
    assert_eq!(list_of_parsed(Ok(value)).unwrap().ids, vec![GitId::new("a", "A")]);
    assert!(matches!(list_of_parsed(Ok(Value::Bool(false))), Err(GitIdError::CorruptStore)));
}
