use spider_node::record::{object_to_u8, Object, Property, Reading, RecordError};

fn property(key: &str) -> Property {
    Property {
        key: key.to_string(),
        text: Reading::Failed,
        unsigned: Reading::Failed,
        signed: Reading::Failed,
        bytes: Reading::Failed,
        boolean: Reading::Failed,
    }
}

fn text(key: &str, value: &str) -> Property {
    Property { text: Reading::Present(value.to_string()), ..property(key) }
}

fn bytes(key: &str, value: &[u8]) -> Property {
    Property { bytes: Reading::Present(value.to_vec()), ..property(key) }
}

fn written(properties: Vec<Property>) -> String {
    let obj = Object { properties: Some(properties) };
    String::from_utf8(object_to_u8(&obj, 0, 0).unwrap()).unwrap()
}

#[test]
fn an_object_without_properties_is_empty_braces() {
    assert_eq!(written(vec![]), "{}");
}

#[test]
fn commas_stand_between_the_properties() {
    assert_eq!(written(vec![text("a", "1")]), r#"{"a":"1"}"#);
    assert_eq!(
        written(vec![text("a", "1"), text("b", "é"), text("", "")]),
        r#"{"a":"1","b":"é","":""}"#
    );
}

#[test]
fn numbers_are_written_as_strings() {
    let n = Property { unsigned: Reading::Present(4294967295), ..property("n") };
    let m = Property { signed: Reading::Present(-7), ..property("m") };
    assert_eq!(written(vec![n, m]), r#"{"n":"4294967295","m":"-7"}"#);
}

#[test]
fn the_first_reading_that_converts_counts() {
    let p = Property {
        key: "k".to_string(),
        text: Reading::Failed,
        unsigned: Reading::Present(5),
        signed: Reading::Present(-5),
        bytes: Reading::Present(vec![65]),
        boolean: Reading::Present(true),
    };
    assert_eq!(written(vec![p]), r#"{"k":"5"}"#);
    let q = Property { text: Reading::Present("t".to_string()), ..property("k") };
    assert_eq!(written(vec![q]), r#"{"k":"t"}"#);
}

#[test]
fn undefined_properties_take_the_default_of_their_type() {
    let t = Property { text: Reading::Absent, ..property("t") };
    let u = Property { unsigned: Reading::Absent, ..property("u") };
    let s = Property { signed: Reading::Absent, ..property("s") };
    let b = Property { bytes: Reading::Absent, ..property("b") };
    let f = Property { boolean: Reading::Absent, ..property("f") };
    assert_eq!(
        written(vec![t, u, s, b, f]),
        r#"{"t":"","u":"0","s":"0","b":"","f":false}"#
    );
}

#[test]
fn booleans_and_nulls_are_written_as_such() {
    let yes = Property { boolean: Reading::Present(true), ..property("a") };
    let no = Property { boolean: Reading::Present(false), ..property("b") };
    assert_eq!(
        written(vec![yes, no, property("c"), text("d", "1")]),
        r#"{"a":true,"b":false,"c":null,"d":"1"}"#
    );
}

#[test]
fn buffers_are_written_as_json_strings() {
    assert_eq!(written(vec![bytes("b", b"plain")]), r#"{"b":"plain"}"#);
    assert_eq!(
        written(vec![bytes("b", "q\"s\\n\nr\rt\tb\u{8}f\u{c}z\u{1}u\u{1f}d\u{7f}é/".as_bytes())]),
        "{\"b\":\"q\\\"s\\\\n\\nr\\rt\\tb\\bf\\fz\\u0001u\\u001fd\u{7f}é/\"}"
    );
}

#[test]
fn buffers_that_are_not_utf8_are_written_as_empty() {
    assert_eq!(written(vec![bytes("b", &[65, 0xff])]), r#"{"b":""}"#);
}

#[test]
fn keys_and_texts_are_escaped() {
    assert_eq!(written(vec![text("a", "x\"y")]), r#"{"a":"x\"y"}"#);
    assert_eq!(written(vec![text("a\"\\", "b\nc\u{1}")]), r#"{"a\"\\":"b\nc\u0001"}"#);
}

#[test]
fn a_record_stays_on_its_line() {
    let record = written(vec![bytes("b", b"one\ntwo"), text("c\n", "three\n\nfour")]);
    assert!(!record.contains('\n'));
}

#[test]
fn records_are_json() {
    let n = Property { unsigned: Reading::Present(3), ..property("n") };
    let f = Property { boolean: Reading::Present(false), ..property("f") };
    let record = written(vec![
        text("a\"", "x\\\u{8}\u{c}\r\t\u{1f}é"),
        n,
        bytes("b", b"\"\n"),
        f,
        property("z"),
    ]);
    let value: serde_json::Value = serde_json::from_str(&record).unwrap();
    assert_eq!(value["a\""], "x\\\u{8}\u{c}\r\t\u{1f}é");
    assert_eq!(value["n"], "3");
    assert_eq!(value["b"], "\"\n");
    assert_eq!(value["f"], false);
    assert!(value["z"].is_null());
    assert_eq!(value.as_object().unwrap().len(), 5);
}

#[test]
fn a_line_ends_after_the_first_record_while_links_outnumber_bytes() {
    let obj = Object { properties: Some(vec![]) };
    let ends = |collected: usize, links: usize| {
        object_to_u8(&obj, collected, links).unwrap() == b"{}\n".to_vec()
    };
    assert!(!ends(0, 0));
    assert!(!ends(0, 100));
    assert!(!ends(5, 6));
    assert!(ends(5, 7));
    assert!(!ends(7, 5));
    assert!(!ends(usize::MAX, usize::MAX));
    assert!(!ends(1, 0));
}

#[test]
fn an_object_whose_keys_cannot_be_listed_gives_no_record() {
    let obj = Object { properties: None };
    assert_eq!(object_to_u8(&obj, 3, 9), Err(RecordError::Keys));
}
