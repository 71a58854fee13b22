use rarerankd::ingest::fetched_inscription;
use rarerankd::ingest::Fetched;
use rarerankd::json::bool_field;
use rarerankd::json::copied_member;
use rarerankd::json::str_field;
use rarerankd::json::string_field;
use rarerankd::json::u64_field;
use rarerankd::ord::extract_inscription_id_and_sat;
use rarerankd::ord::id_and_sat_from_fields;
use rarerankd::ord::inscription_url;
use rarerankd::ord::ord_inscription_by_number;
use rarerankd::ord::ord_status;
use rarerankd::ord::ord_status_from_fields;
use rarerankd::ord::status_url;
use rarerankd::ord::ExtractError;
use rarerankd::ord::InscriptionFields;
use rarerankd::ord::OrdError;
use rarerankd::ord::OrdStatus;
use rarerankd::ord::StatusFields;

fn value(text: &str) -> serde_json::Value {
    serde_json::from_str(text).unwrap()
}

#[test]
fn addresses_have_one_slash() {
    assert_eq!(status_url("http://127.0.0.1:8083"), "http://127.0.0.1:8083/status");
    assert_eq!(status_url("http://127.0.0.1:8083//"), "http://127.0.0.1:8083/status");
    assert_eq!(inscription_url("http://h/", 0), "http://h/inscription/0");
    assert_eq!(
        inscription_url("http://h/ord", u64::MAX),
        "http://h/ord/inscription/18446744073709551615"
    );
}

#[test]
fn status_is_read() {
    let body = br#"{"height": 800000, "inscriptions": 42, "sat_index": true, "inscription_index": false, "x": [1]}"#;
    assert_eq!(
        ord_status(body),
        Ok(OrdStatus { height: 800_000, inscriptions: 42, sat_index: true, inscription_index: false })
    );
}

#[test]
fn height_keeps_its_lowest_bits() {
    let body = br#"{"height": 4294967297, "inscriptions": 0, "sat_index": false, "inscription_index": true}"#;
    assert_eq!(ord_status(body).unwrap().height, 1);
}

#[test]
fn each_member_of_the_status_is_needed() {
    for (body, error, message) in [
        ("", OrdError::NotJson, "ord answer is not JSON"),
        ("<html>", OrdError::NotJson, "ord answer is not JSON"),
        ("{\"height\": 1} x", OrdError::NotJson, "ord answer is not JSON"),
        ("null", OrdError::MissingHeight, "ord /status missing height"),
        ("{}", OrdError::MissingHeight, "ord /status missing height"),
        (
            "{\"height\": -1, \"inscriptions\": 1, \"sat_index\": true, \"inscription_index\": true}",
            OrdError::MissingHeight,
            "ord /status missing height",
        ),
        (
            "{\"height\": 1, \"inscriptions\": 1.5, \"sat_index\": true, \"inscription_index\": true}",
            OrdError::MissingInscriptions,
            "ord /status missing inscriptions",
        ),
        (
            "{\"height\": 1, \"inscriptions\": 1, \"sat_index\": \"true\", \"inscription_index\": true}",
            OrdError::MissingSatIndex,
            "ord /status missing sat_index",
        ),
        (
            "{\"height\": 1, \"inscriptions\": 1, \"sat_index\": true, \"inscription_index\": null}",
            OrdError::MissingInscriptionIndex,
            "ord /status missing inscription_index",
        ),
    ] {
        assert_eq!(ord_status(body.as_bytes()), Err(error), "{body}");
        assert_eq!(error.message(), message);
    }
}

#[test]
fn status_members_are_missed_in_order() {
    let none = StatusFields { height: None, inscriptions: None, sat_index: None, inscription_index: None };
    assert_eq!(ord_status_from_fields(none), Err(OrdError::MissingHeight));
    let height = StatusFields { height: Some(1), ..none };
    assert_eq!(ord_status_from_fields(height), Err(OrdError::MissingInscriptions));
    let inscriptions = StatusFields { inscriptions: Some(2), ..height };
    assert_eq!(ord_status_from_fields(inscriptions), Err(OrdError::MissingSatIndex));
    let sat_index = StatusFields { sat_index: Some(true), ..inscriptions };
    assert_eq!(ord_status_from_fields(sat_index), Err(OrdError::MissingInscriptionIndex));
    let all = StatusFields { inscription_index: Some(true), ..sat_index };
    assert_eq!(
        ord_status_from_fields(all),
        Ok(OrdStatus { height: 1, inscriptions: 2, sat_index: true, inscription_index: true })
    );
}

#[test]
fn a_null_is_no_inscription() {
    assert_eq!(ord_inscription_by_number(b"null"), Ok(None));
    assert_eq!(ord_inscription_by_number(b" 7 "), Ok(Some(value("7"))));
    assert_eq!(ord_inscription_by_number(b"{\"id\": \"a\"}"), Ok(Some(value("{\"id\": \"a\"}"))));
    assert_eq!(ord_inscription_by_number(b"nul"), Err(OrdError::NotJson));
}

#[test]
fn id_and_sat_are_found_under_several_names() {
    for (text, id, sat) in [
        (r#"{"id": "ai0", "sat": 5}"#, "ai0", 5),
        (r#"{"inscription_id": "bi1", "sat": 5}"#, "bi1", 5),
        (r#"{"id": 7, "inscription_id": "bi1", "sat": 5}"#, "bi1", 5),
        (r#"{"id": "ai0", "inscription_id": "bi1", "sat": 5, "sat_number": 6}"#, "ai0", 5),
        (r#"{"id": "ai0", "sat_number": 6, "satpoint": {"sat": 7}}"#, "ai0", 6),
        (r#"{"id": "ai0", "sat": null, "satpoint": {"sat": 7}}"#, "ai0", 7),
        (r#"{"id": "ai0", "sat": "9", "sat_number": -1, "satpoint": {"sat": 0}}"#, "ai0", 0),
    ] {
        let got = extract_inscription_id_and_sat(&value(text)).unwrap();
        assert_eq!((got.0.as_str(), got.1), (id, sat), "{text}");
    }
}

#[test]
fn a_missing_id_is_told_before_a_missing_sat() {
    for (text, error) in [
        ("{}", ExtractError::MissingId),
        ("[]", ExtractError::MissingId),
        (r#"{"sat": 5}"#, ExtractError::MissingId),
        (r#"{"id": "ai0"}"#, ExtractError::MissingSat),
        (r#"{"id": "ai0", "sat": 1.0, "satpoint": "x:0:0"}"#, ExtractError::MissingSat),
    ] {
        assert_eq!(extract_inscription_id_and_sat(&value(text)).unwrap_err(), error, "{text}");
    }
    assert_eq!(ExtractError::MissingId.message(), "inscription JSON missing `id`");
    assert_eq!(
        ExtractError::MissingSat.message(),
        "inscription JSON missing sat number field (sat/sat_number/satpoint.sat)"
    );
}

#[test]
fn fields_give_the_first_that_is_there() {
    let fields = InscriptionFields {
        id: None,
        inscription_id: Some("x".to_string()),
        sat: None,
        sat_number: None,
        satpoint_sat: Some(3),
    };
    assert_eq!(id_and_sat_from_fields(fields), Ok(("x".to_string(), 3)));
}

#[test]
fn answers_for_an_inscription_are_told_apart() {
    assert!(matches!(fetched_inscription(b"not json"), Fetched::Failed));
    assert!(matches!(fetched_inscription(b"null"), Fetched::Absent));
    assert!(matches!(
        fetched_inscription(b"{\"id\": \"a\"}"),
        Fetched::Malformed { error: ExtractError::MissingSat }
    ));
    match fetched_inscription(b"{\"id\": \"a\", \"sat\": 11}") {
        Fetched::Found { inscription_id, sat } => assert_eq!((inscription_id.as_str(), sat), ("a", 11)),
        _ => panic!("not found"),
    }
}

#[test]
fn members_are_read_by_type() {
    let v = value(r#"{"n": 18446744073709551615, "f": 2.0, "s": "t", "b": false, "o": {"x": [1, 2]}}"#);
    assert_eq!(u64_field(&v, "n"), Some(u64::MAX));
    assert_eq!(u64_field(&v, "f"), None);
    assert_eq!(u64_field(&v, "s"), None);
    assert_eq!(u64_field(&v, "missing"), None);
    assert_eq!(str_field(&v, "s"), Some("t"));
    assert_eq!(str_field(&v, "n"), None);
    assert_eq!(string_field(&v, "s"), Some("t".to_string()));
    assert_eq!(bool_field(&v, "b"), Some(false));
    assert_eq!(bool_field(&v, "s"), None);
    assert_eq!(copied_member(&v, "o"), value("{\"x\": [1, 2]}"));
    assert_eq!(copied_member(&v, "missing"), serde_json::Value::Null);
    assert_eq!(u64_field(&value("[1]"), "0"), None);
}
