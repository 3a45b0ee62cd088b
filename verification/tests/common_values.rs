use nipart::json::{JsonObject, JsonValue};
use nipart::value::{gen_diff_json_value, gen_revert_state, merge_json_value};

fn text(s: &str) -> JsonValue {
    JsonValue::Text(s.to_string())
}

fn object(entries: Vec<(&str, JsonValue)>) -> JsonValue {
    let mut o = JsonObject::new();
    for (k, v) in entries {
        o.insert(k.to_string(), v);
    }
    JsonValue::Object(o)
}

#[test]
fn render_shows_values_as_text() {
    let v = object(vec![
        ("name", text("eth0")),
        ("mtu", JsonValue::Number(1500)),
        ("neg", JsonValue::Number(-42)),
        ("up", JsonValue::Bool(true)),
        ("none", JsonValue::Null),
        ("list", JsonValue::Array(vec![JsonValue::Number(0), text("a")])),
        ("empty", object(vec![])),
    ]);
    assert_eq!(
        v.render(),
        "{\"empty\":{},\"list\":[0,\"a\"],\"mtu\":1500,\"name\":\"eth0\",\"neg\":-42,\"none\":null,\"up\":true}"
    );
}

#[test]
fn render_escapes_texts() {
    assert_eq!(text("a\"b\\c\nd").render(), "\"a\\\"b\\\\c\\nd\"");
    assert_eq!(object(vec![("k\"", JsonValue::Null)]).render(), "{\"k\\\"\":null}");
}

#[test]
fn render_extreme_numbers() {
    assert_eq!(JsonValue::Number(i64::MIN).render(), "-9223372036854775808");
    assert_eq!(JsonValue::Number(i64::MAX).render(), "9223372036854775807");
    assert_eq!(JsonValue::Number(0).render(), "0");
    assert_eq!(JsonValue::Number(10).render(), "10");
}

#[test]
fn insert_replaces_value_of_existing_key() {
    let mut o = JsonObject::new();
    assert!(o.is_empty());
    o.insert("a".to_string(), JsonValue::Number(1));
    o.insert("b".to_string(), JsonValue::Number(2));
    o.insert("a".to_string(), JsonValue::Number(3));
    assert!(!o.is_empty());
    o.insert("B".to_string(), JsonValue::Null);
    o.insert("ab".to_string(), JsonValue::Null);
    o.insert("".to_string(), JsonValue::Null);
    assert_eq!(o.sorted_keys(), vec!["", "B", "a", "ab", "b"]);
    assert!(o.get("a").unwrap().same(&JsonValue::Number(3)));
    assert!(o.get("c").is_none());
}

#[test]
fn same_ignores_order_of_entries() {
    let a = object(vec![("x", JsonValue::Number(1)), ("y", text("t"))]);
    let b = object(vec![("y", text("t")), ("x", JsonValue::Number(1))]);
    let c = object(vec![("x", JsonValue::Number(1))]);
    assert!(a.same(&b));
    assert!(!a.same(&c));
    assert!(!c.same(&a));
    assert!(!JsonValue::Array(vec![JsonValue::Null]).same(&JsonValue::Array(vec![])));
    assert!(a.clone().same(&a));
}

#[test]
fn diff_holds_only_what_is_not_met() {
    let desired = object(vec![
        ("name", text("eth0")),
        ("state", text("up")),
        ("ipv4", object(vec![("enabled", JsonValue::Bool(true)), ("dhcp", JsonValue::Bool(true))])),
        ("dontcare", JsonValue::Null),
        ("fresh", JsonValue::Number(7)),
    ]);
    let current = object(vec![
        ("name", text("eth0")),
        ("state", text("down")),
        ("ipv4", object(vec![("enabled", JsonValue::Bool(true)), ("dhcp", JsonValue::Bool(false))])),
        ("dontcare", JsonValue::Number(9)),
        ("extra", JsonValue::Number(1)),
    ]);
    let diff = gen_diff_json_value(&desired, &current).unwrap();
    let expected = object(vec![
        ("state", text("up")),
        ("ipv4", object(vec![("dhcp", JsonValue::Bool(true))])),
        ("fresh", JsonValue::Number(7)),
    ]);
    assert!(diff.same(&expected), "{}", diff.render());
}

#[test]
fn diff_of_met_value_is_none() {
    let desired = object(vec![("a", JsonValue::Number(1))]);
    let current = object(vec![("a", JsonValue::Number(1)), ("b", JsonValue::Number(2))]);
    assert!(gen_diff_json_value(&desired, &current).is_none());
    assert!(gen_diff_json_value(&JsonValue::Null, &current).is_none());
    assert!(gen_diff_json_value(&current, &current).is_none());
}

#[test]
fn diff_takes_arrays_whole() {
    let desired = JsonValue::Array(vec![JsonValue::Number(1), JsonValue::Number(2)]);
    let shorter = JsonValue::Array(vec![JsonValue::Number(1)]);
    let other = JsonValue::Array(vec![JsonValue::Number(1), JsonValue::Number(3)]);
    assert!(gen_diff_json_value(&desired, &shorter).unwrap().same(&desired));
    assert!(gen_diff_json_value(&desired, &other).unwrap().same(&desired));
    assert!(gen_diff_json_value(&desired, &desired).is_none());
    assert!(gen_diff_json_value(&desired, &text("x")).unwrap().same(&desired));
}

#[test]
fn merge_lays_objects_over_each_other() {
    let mut base = object(vec![
        ("a", JsonValue::Number(1)),
        ("nested", object(vec![("x", JsonValue::Number(1)), ("y", JsonValue::Number(2))])),
        ("list", JsonValue::Array(vec![JsonValue::Number(1)])),
    ]);
    let other = object(vec![
        ("nested", object(vec![("y", JsonValue::Number(3)), ("z", JsonValue::Number(4))])),
        ("list", JsonValue::Array(vec![])),
        ("b", text("new")),
    ]);
    merge_json_value(&mut base, &other);
    let expected = object(vec![
        ("a", JsonValue::Number(1)),
        (
            "nested",
            object(vec![
                ("x", JsonValue::Number(1)),
                ("y", JsonValue::Number(3)),
                ("z", JsonValue::Number(4)),
            ]),
        ),
        ("list", JsonValue::Array(vec![])),
        ("b", text("new")),
    ]);
    assert!(base.same(&expected), "{}", base.render());
    let mut scalar = JsonValue::Number(1);
    merge_json_value(&mut scalar, &other);
    assert!(scalar.same(&other));
}

#[test]
fn diff_then_merge_leaves_no_diff() {
    let desired = object(vec![
        ("state", text("up")),
        ("ipv4", object(vec![("enabled", JsonValue::Bool(true)), ("dhcp", JsonValue::Bool(true))])),
        ("ports", JsonValue::Array(vec![text("a"), text("b")])),
    ]);
    let mut current = object(vec![
        ("state", text("down")),
        ("ipv4", object(vec![("enabled", JsonValue::Bool(false))])),
        ("ports", JsonValue::Array(vec![text("a")])),
        ("mac", text("00:11")),
    ]);
    let diff = gen_diff_json_value(&desired, &current).unwrap();
    merge_json_value(&mut current, &diff);
    assert!(gen_diff_json_value(&desired, &current).is_none());
    match &current {
        JsonValue::Object(o) => assert!(o.get("mac").unwrap().same(&text("00:11"))),
        _ => panic!("not an object"),
    }
}

#[test]
fn revert_holds_what_current_held() {
    let desired = object(vec![
        ("state", text("up")),
        ("ipv4", object(vec![("dhcp", JsonValue::Bool(true)), ("new", JsonValue::Number(1))])),
        ("added", JsonValue::Number(5)),
    ]);
    let current = object(vec![
        ("state", text("down")),
        ("ipv4", object(vec![("dhcp", JsonValue::Bool(false)), ("enabled", JsonValue::Bool(true))])),
        ("untouched", JsonValue::Number(1)),
    ]);
    let mut revert = object(vec![("name", text("eth0"))]);
    gen_revert_state(&desired, &current, &mut revert);
    let expected = object(vec![
        ("name", text("eth0")),
        ("state", text("down")),
        ("ipv4", object(vec![("dhcp", JsonValue::Bool(false)), ("new", JsonValue::Null)])),
        ("added", JsonValue::Null),
    ]);
    assert!(revert.same(&expected), "{}", revert.render());
}

#[test]
fn revert_round_trip_gives_current_back() {
    let desired = object(vec![
        ("state", text("up")),
        ("ipv4", object(vec![("dhcp", JsonValue::Bool(true))])),
    ]);
    let current = object(vec![
        ("name", text("eth0")),
        ("state", text("down")),
        ("ipv4", object(vec![("dhcp", JsonValue::Bool(false)), ("enabled", JsonValue::Bool(true))])),
    ]);
    let mut applied = current.clone();
    merge_json_value(&mut applied, &desired);
    let mut revert = object(vec![("name", text("eth0"))]);
    gen_revert_state(&desired, &current, &mut revert);
    merge_json_value(&mut applied, &revert);
    assert!(applied.same(&current), "{}", applied.render());
}

#[test]
fn revert_of_what_is_already_so_is_the_desired_value() {
    let desired = object(vec![
        ("name", text("eth0")),
        ("ipv4", object(vec![("dhcp", JsonValue::Bool(false))])),
    ]);
    let current = object(vec![
        ("name", text("eth0")),
        ("state", text("down")),
        ("ipv4", object(vec![("dhcp", JsonValue::Bool(false)), ("enabled", JsonValue::Bool(true))])),
    ]);
    let mut revert = object(vec![("name", text("eth0"))]);
    gen_revert_state(&desired, &current, &mut revert);
    assert!(revert.same(&desired));
}
