use tee_time_finder::structs::{CourseId, JsonField, JsonLeaf, JsonValue};

fn field(k: &str, v: JsonLeaf) -> JsonField {
    JsonField { key: k.to_string(), value: v }
}

#[test]
fn integer_parses_to_number() {
    match CourseId::parse(&JsonValue::Integer(7340)) {
        Some(CourseId::Number(n)) => assert_eq!(n, 7340),
        _ => panic!("expected the number form"),
    }
}

#[test]
fn string_parses_to_string() {
    match CourseId::parse(&JsonValue::Text("abc-12".to_string())) {
        Some(CourseId::String(s)) => assert_eq!(s, "abc-12"),
        _ => panic!("expected the string form"),
    }
}

#[test]
fn object_parses_to_verbose() {
    let v = JsonValue::Object(vec![
        field("url", JsonLeaf::Text("https://club.example".to_string())),
        field("extra", JsonLeaf::Bool(true)),
        field("id", JsonLeaf::Integer(42)),
        field("alias", JsonLeaf::Text("club".to_string())),
    ]);
    match CourseId::parse(&v) {
        Some(CourseId::Verbose(vb)) => {
            assert_eq!(vb.id, 42);
            assert_eq!(vb.url, "https://club.example");
            assert_eq!(vb.alias, "club");
        },
        _ => panic!("expected the verbose form"),
    }
}

#[test]
fn other_shapes_fail() {
    assert!(CourseId::parse(&JsonValue::Null).is_none());
    assert!(CourseId::parse(&JsonValue::Bool(true)).is_none());
    assert!(CourseId::parse(&JsonValue::OtherNumber).is_none());
    assert!(CourseId::parse(&JsonValue::Array).is_none());
    assert!(CourseId::parse(&JsonValue::Integer(1i128 << 70)).is_none());
    let missing_alias = JsonValue::Object(vec![
        field("id", JsonLeaf::Integer(42)),
        field("url", JsonLeaf::Text("u".to_string())),
    ]);
    assert!(CourseId::parse(&missing_alias).is_none());
    let text_id = JsonValue::Object(vec![
        field("id", JsonLeaf::Text("42".to_string())),
        field("url", JsonLeaf::Text("u".to_string())),
        field("alias", JsonLeaf::Text("a".to_string())),
    ]);
    assert!(CourseId::parse(&text_id).is_none());
}

#[test]
fn identity_text_forms() {
    assert_eq!(CourseId::Number(-15).text(), "-15");
    assert_eq!(CourseId::String("x9".to_string()).text(), "x9");
    let v = JsonValue::Object(vec![
        field("id", JsonLeaf::Integer(19)),
        field("url", JsonLeaf::Text("u".to_string())),
        field("alias", JsonLeaf::Text("a".to_string())),
    ]);
    let id = CourseId::parse(&v).unwrap();
    assert_eq!(id.text(), "19");
    assert!(id.verbose().is_some());
    assert!(CourseId::Number(3).verbose().is_none());
}
