use rust_analyzer_mcp::json::{Json, JsonNumber};

fn text(s: &str) -> Json {
    Json::Str(s.to_string())
}

fn obj(members: Vec<(&str, Json)>) -> Json {
    Json::Object(members.into_iter().map(|(k, v)| (k.to_string(), v)).collect())
}

#[test]
fn a_member_set_is_read_back() {
    let mut value = obj(vec![("a", text("x"))]);
    value.insert("b".to_string(), text("y"));
    assert_eq!(value.get("b").and_then(|v| v.as_str()), Some("y"));
    assert_eq!(value.get("a").and_then(|v| v.as_str()), Some("x"));
}

#[test]
fn setting_a_member_again_replaces_it_in_place() {
    let mut value = obj(vec![("a", text("x")), ("b", text("y"))]);
    value.insert("a".to_string(), text("z"));
    assert_eq!(value.get("a").and_then(|v| v.as_str()), Some("z"));
    match &value {
        Json::Object(members) => {
            assert_eq!(members.len(), 2);
            assert_eq!(members[0].0, "a");
        }
        _ => panic!("still an object"),
    }
}

#[test]
fn null_becomes_an_object_when_a_member_is_set() {
    let mut value = Json::Null;
    value.insert("k".to_string(), Json::Bool(true));
    assert_eq!(value.get("k").and_then(|v| v.as_bool()), Some(true));
}

#[test]
fn lookups_into_things_that_are_not_objects_find_nothing() {
    assert!(Json::Array(vec![text("a")]).get("a").is_none());
    assert!(text("a").get("a").is_none());
    assert_eq!(text("a").as_u64(), None);
    assert_eq!(Json::Number(JsonNumber::Negative(-3)).as_u64(), None);
    assert_eq!(Json::Number(JsonNumber::Other("1.5".to_string())).as_u64(), None);
    assert_eq!(Json::Number(JsonNumber::Unsigned(7)).as_u64(), Some(7));
    assert!(Json::Null.is_null());
}

#[test]
fn a_path_of_member_names_is_followed_down() {
    let value = obj(vec![("a", obj(vec![("b", obj(vec![("c", Json::unsigned(3))]))]))]);
    assert_eq!(value.at(&["a", "b", "c"]).and_then(|v| v.as_u64()), Some(3));
    assert!(value.at(&["a", "x", "c"]).is_none());
    assert!(value.at(&[]).is_some());
}

#[test]
fn the_first_of_two_members_with_one_key_is_found() {
    let value = obj(vec![("k", text("first")), ("k", text("second"))]);
    assert_eq!(value.get("k").and_then(|v| v.as_str()), Some("first"));
}

#[test]
fn a_copy_holds_the_same_value() {
    let value = obj(vec![
        ("list", Json::Array(vec![Json::unsigned(1), Json::Null, text("t")])),
        ("n", Json::Number(JsonNumber::Other("2.5e3".to_string()))),
    ]);
    let copy = value.copy();
    assert_eq!(format!("{copy:?}"), format!("{value:?}"));
}
