use rarerankd::jsonl::jsonl_line;
use rarerankd::jsonl::pretty_file;

fn value(text: &str) -> serde_json::Value {
    serde_json::from_str(text).unwrap()
}

#[test]
fn a_value_takes_one_line() {
    let v = value("{\n \"b\": \"x\\ny\",\n \"a\": [1, 2.5, null]\n}");
    assert_eq!(jsonl_line(&v), "{\"a\":[1,2.5,null],\"b\":\"x\\ny\"}\n");
}

#[test]
fn a_line_reads_back() {
    for text in ["{}", "{\"a\": -5, \"b\": 18446744073709551615, \"c\": \"\\u0000\\\"é\\n\", \"d\": null, \"e\": true}"] {
        let v = value(text);
        assert_eq!(value(jsonl_line(&v).trim_end_matches('\n')), v);
    }
}

#[test]
fn keys_with_a_dollar_sign_are_written_like_others() {
    let mut members = serde_json::Map::new();
    for (key, member) in [("$x", "1"), ("", "2"), ("a$", "3")] {
        members.insert(key.to_string(), serde_json::Value::from(member));
    }
    let v = serde_json::Value::Object(members);
    assert_eq!(jsonl_line(&v), "{\"\":\"2\",\"$x\":\"1\",\"a$\":\"3\"}\n");

    let private = "$serde_json::private::RawValue";
    let mut members = serde_json::Map::new();
    members.insert(private.to_string(), serde_json::Value::from("null"));
    let v = serde_json::Value::Object(members);
    assert_eq!(jsonl_line(&v), format!("{{\"{private}\":\"null\"}}\n"));
}

#[test]
fn keys_without_a_dollar_sign_at_the_start_read_back() {
    let v = value("{\"\": 1, \"a$\": \"$\", \" $x\": null}");
    assert_eq!(value(jsonl_line(&v).trim_end_matches('\n')), v);
}

#[test]
fn lines_of_a_file_are_the_values() {
    let values = [value("{\"a\": \"\\n\"}"), value("7"), value("[\"\\r\\n\"]")];
    let mut file = String::new();
    for v in &values {
        file.push_str(&jsonl_line(v));
    }
    let lines: Vec<&str> = file.split('\n').collect();
    assert_eq!(lines.len(), 4);
    assert_eq!(lines[3], "");
    for (line, v) in lines.iter().zip(&values) {
        assert_eq!(&value(line), v);
    }
}

#[test]
fn a_file_is_indented() {
    let bytes = pretty_file(&value("{\"hit\": {\"number\": 3}, \"first_number\": 3}"));
    assert_eq!(
        String::from_utf8(bytes).unwrap(),
        "{\n  \"first_number\": 3,\n  \"hit\": {\n    \"number\": 3\n  }\n}"
    );
}
