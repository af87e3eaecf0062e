use ralph_robot::codec::{from_value, parse_json, to_value};
use ralph_robot::json::Json;

#[test]
fn members_are_found() {
    let json = parse_json(r#"{"a":1,"b":{"c":"x","d":null},"e":[true]}"#).unwrap();
    assert!(json.is_object());
    assert_eq!(json.get("a").and_then(Json::as_i64), Some(1));
    assert!(json.get("z").is_none());
    assert_eq!(json.at(&["b", "c"]).and_then(Json::as_str), Some("x"));
    assert!(json.at(&["b", "d"]).unwrap().is_null());
    assert!(json.at(&["a", "c"]).is_none());
    assert!(json.at(&[]).unwrap().is_object());
    assert!(json.get("e").unwrap().get("0").is_none());
}

#[test]
fn the_first_fitting_member_counts() {
    let json = parse_json(r#"{"a":"x","b":2,"c":3,"d":"y","n":null}"#).unwrap();
    assert_eq!(json.first_i64(&["a", "b", "c"]), Some(2));
    assert_eq!(json.first_str(&["b", "d", "a"]), Some("y"));
    assert!(json.first_of(&["z", "n", "a"]).unwrap().is_null());
    assert!(json.first_of(&["z"]).is_none());
    assert_eq!(json.first_i64(&[]), None);
}

#[test]
fn the_last_entry_of_a_name_counts() {
    let json = Json::Object(vec![
        ("a".to_string(), Json::Unsigned(1)),
        ("a".to_string(), Json::Unsigned(2)),
    ]);
    assert_eq!(json.get("a").and_then(Json::as_i64), Some(2));
    assert_eq!(json.to_text(), r#"{"a":2}"#);
}

#[test]
fn integers_are_told_from_other_numbers() {
    assert_eq!(parse_json("9223372036854775807").unwrap().as_i64(), Some(i64::MAX));
    assert_eq!(parse_json("9223372036854775808").unwrap().as_i64(), None);
    assert_eq!(parse_json("-9223372036854775808").unwrap().as_i64(), Some(i64::MIN));
    assert_eq!(parse_json("1.0").unwrap().as_i64(), None);
    assert_eq!(parse_json("1e2").unwrap().as_i64(), None);
    assert_eq!(parse_json("\"1\"").unwrap().as_i64(), None);
    assert_eq!(Json::Unsigned(u64::MAX).as_i64(), None);
    assert_eq!(Json::Signed(-3).as_i64(), Some(-3));
}

#[test]
fn text_is_compact_and_on_one_line() {
    let json = parse_json("{ \"b\" : [ 1 , -2 , 2.5 , true , null ] ,\n \"a\" : \"x\\ny\" }").unwrap();
    assert_eq!(json.to_text(), r#"{"a":"x\ny","b":[1,-2,2.5,true,null]}"#);
    assert_eq!(json.clone().to_text(), json.to_text());
}

#[test]
fn pretty_text_is_indented() {
    let json = Json::Object(vec![("a".to_string(), Json::Array(vec![Json::Bool(false)]))]);
    let bytes = json.to_pretty();
    assert_eq!(String::from_utf8(bytes).unwrap(), "{\n  \"a\": [\n    false\n  ]\n}");
}

#[test]
fn what_is_written_is_read_again() {
    let json = parse_json(r#"{"a":[1,{"b":"é"}],"c":-7,"d":true,"e":18446744073709551615}"#)
        .unwrap();
    let again = parse_json(&String::from_utf8(json.to_pretty()).unwrap()).unwrap();
    assert_eq!(to_value(&again), to_value(&json));
    let once_more = parse_json(&json.to_text()).unwrap();
    assert_eq!(to_value(&once_more), to_value(&json));
}

#[test]
fn a_document_of_the_greatest_depth_is_read_again() {
    let deep = format!("{}{}", "[".repeat(127), "]".repeat(127));
    let json = parse_json(&deep).unwrap();
    assert_eq!(json.to_text(), deep);
    assert!(parse_json(&String::from_utf8(json.to_pretty()).unwrap()).is_ok());
    assert!(parse_json(&format!("[{deep}]")).is_err());
}

#[test]
fn numbers_with_fractions_are_read_again() {
    for text in ["0.1", "1.7976931348623157e308", "5e-324", "-2.5", "1e16"] {
        let json = parse_json(text).unwrap();
        assert!(parse_json(&json.to_text()).is_ok());
    }
}

#[test]
fn the_reader_gives_its_message() {
    let message = parse_json("{\"a\":").unwrap_err();
    assert_eq!(message, "EOF while parsing a value at line 1 column 5");
}

#[test]
fn values_are_converted_both_ways() {
    let value: serde_json::Value =
        serde_json::from_str(r#"{"a":[null,true,1,-1,0.5,"s",{}],"b":{"c":[]}}"#).unwrap();
    assert_eq!(to_value(&from_value(&value)), value);
    assert_eq!(to_value(&Json::Signed(5)), serde_json::Value::from(5));
    assert_eq!(to_value(&Json::Null), serde_json::Value::Null);
}
