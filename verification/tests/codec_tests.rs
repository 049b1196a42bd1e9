use cdc_streamer::cdc::events::{ChangeEvent, ChangeOperation, ColumnValue};
use cdc_streamer::codec::{parse_wire, str_eq, to_wire};

fn sample_event() -> ChangeEvent {
    ChangeEvent::new(
        String::from("shop"),
        String::from("orders"),
        ChangeOperation::Insert,
        None,
        Some(vec![
            (String::from("id"), ColumnValue::Num(String::from("42"))),
            (String::from("name"), ColumnValue::Str(String::from("widget"))),
            (String::from("active"), ColumnValue::Bool(true)),
            (String::from("note"), ColumnValue::Null),
        ]),
        vec![(String::from("id"), ColumnValue::Num(String::from("42")))],
    )
}

#[test]
fn wire_payload_has_the_exact_shape() {
    let e = ChangeEvent {
        id: String::from("abc-123"),
        timestamp: String::from("2021-01-02T03:04:05+00:00"),
        database: String::from("shop"),
        table: String::from("orders"),
        operation: ChangeOperation::Insert,
        before: None,
        after: Some(vec![(String::from("id"), ColumnValue::Num(String::from("7")))]),
        primary_key: vec![(String::from("id"), ColumnValue::Num(String::from("7")))],
        transaction_id: None,
    };
    let payload = to_wire(&e);
    assert_eq!(
        payload,
        "{\"id\":\"abc-123\",\"timestamp\":\"2021-01-02T03:04:05+00:00\",\
         \"database\":\"shop\",\"table\":\"orders\",\"operation\":\"insert\",\
         \"before\":null,\"after\":{\"id\":7},\"primary_key\":{\"id\":7},\
         \"transaction_id\":null}"
    );
}

#[test]
fn wire_round_trip_is_identity() {
    let e = sample_event();
    let payload = to_wire(&e);
    let parsed = parse_wire(payload.as_str()).expect("a written payload parses");
    assert_eq!(parsed, e);
}

#[test]
fn wire_round_trip_with_escapes_and_before_image() {
    let e = ChangeEvent {
        id: String::from("id-1"),
        timestamp: String::from("2024-06-01T00:00:00+00:00"),
        database: String::from("db.\"with\" dots"),
        table: String::from("ta\\ble"),
        operation: ChangeOperation::Update,
        before: Some(vec![(String::from("k\"ey"), ColumnValue::Str(String::from("a\\b\"c")))]),
        after: Some(vec![]),
        primary_key: vec![],
        transaction_id: Some(String::from("txn-9")),
    };
    let payload = to_wire(&e);
    let parsed = parse_wire(payload.as_str()).expect("escaped payload parses");
    assert_eq!(parsed, e);
    assert_eq!(to_wire(&parsed), payload);
}

#[test]
fn wire_round_trip_delete_with_null_after() {
    let e = ChangeEvent::new(
        String::from("shop"),
        String::from("orders"),
        ChangeOperation::Delete,
        Some(vec![(String::from("id"), ColumnValue::Num(String::from("-3.5e2")))]),
        None,
        vec![],
    );
    let payload = to_wire(&e);
    let parsed = parse_wire(payload.as_str()).expect("delete payload parses");
    assert_eq!(parsed, e);
}

#[test]
fn parse_wire_rejects_malformed_payloads() {
    assert!(parse_wire("").is_none());
    assert!(parse_wire("nonsense").is_none());
    assert!(parse_wire("{\"id\":\"x\"}").is_none());
    let e = sample_event();
    let payload = to_wire(&e);
    let mut truncated = payload.clone();
    truncated.pop();
    assert!(parse_wire(truncated.as_str()).is_none());
    let mut extended = payload.clone();
    extended.push(' ');
    assert!(parse_wire(extended.as_str()).is_none());
}

#[test]
fn str_eq_compares_contents() {
    assert!(str_eq("abc", "abc"));
    assert!(!str_eq("abc", "abd"));
    assert!(!str_eq("abc", "abcd"));
    assert!(str_eq("", ""));
}
