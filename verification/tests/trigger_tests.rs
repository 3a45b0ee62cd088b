use nipart::error::ErrorKind;
use nipart::json::{JsonObject, JsonValue};
use nipart::trigger::{InterfaceTrigger, InterfaceTriggerCarrier};

fn single(key: &str, v: JsonValue) -> JsonValue {
    let mut o = JsonObject::new();
    o.insert(key.to_string(), v);
    JsonValue::Object(o)
}

fn text(s: &str) -> JsonValue {
    JsonValue::Text(s.to_string())
}

const EXPECTING: &str = "Expecting 'never', 'always', 'carrier', 'wifi-up', 'wifi-up-not', 'wifi-down' for interface trigger";

#[test]
fn wifi_triggers_are_wifi() {
    assert!(InterfaceTrigger::WifiUp(Box::new("home".to_string())).is_wifi());
    assert!(InterfaceTrigger::WifiDown(Box::new("home".to_string())).is_wifi());
    assert!(InterfaceTrigger::WifiUpNot(Box::new("home".to_string())).is_wifi());
    assert!(!InterfaceTrigger::Never.is_wifi());
    assert!(!InterfaceTrigger::Always.is_wifi());
    assert!(!InterfaceTrigger::Carrier(Box::new(InterfaceTriggerCarrier::default())).is_wifi());
}

#[test]
fn trigger_values_are_texts_or_single_entries() {
    assert_eq!(InterfaceTrigger::Never.to_value().render(), "\"never\"");
    assert_eq!(InterfaceTrigger::Always.to_value().render(), "\"always\"");
    assert_eq!(
        InterfaceTrigger::Carrier(Box::new(InterfaceTriggerCarrier::default())).to_value().render(),
        "{\"carrier\":{}}"
    );
    assert_eq!(
        InterfaceTrigger::WifiUp(Box::new("home".to_string())).to_value().render(),
        "{\"wifi-up\":\"home\"}"
    );
    assert_eq!(
        InterfaceTrigger::WifiDown(Box::new("home".to_string())).to_value().render(),
        "{\"wifi-down\":\"home\"}"
    );
    assert_eq!(
        InterfaceTrigger::WifiUpNot(Box::new("home".to_string())).to_value().render(),
        "{\"wifi-up-not\":\"home\"}"
    );
}

#[test]
fn trigger_values_lead_back_to_triggers() {
    let all = vec![
        InterfaceTrigger::Never,
        InterfaceTrigger::Always,
        InterfaceTrigger::Carrier(Box::new(InterfaceTriggerCarrier::default())),
        InterfaceTrigger::WifiUp(Box::new("home".to_string())),
        InterfaceTrigger::WifiDown(Box::new("*".to_string())),
        InterfaceTrigger::WifiUpNot(Box::new("work".to_string())),
    ];
    for t in all {
        assert_eq!(InterfaceTrigger::from_value(&t.to_value()).unwrap(), t);
    }
}

#[test]
fn first_known_key_of_trigger_object_decides() {
    let mut o = JsonObject::new();
    o.insert("carrier".to_string(), JsonValue::Object(JsonObject::new()));
    o.insert("wifi-up".to_string(), text("home"));
    assert_eq!(
        InterfaceTrigger::from_value(&JsonValue::Object(o)).unwrap(),
        InterfaceTrigger::WifiUp(Box::new("home".to_string()))
    );
}

#[test]
fn unknown_trigger_text_is_refused() {
    let e = InterfaceTrigger::from_value(&text("sometimes")).unwrap_err();
    assert_eq!(e.kind(), ErrorKind::StructuralError);
    assert_eq!(e.msg(), format!("{EXPECTING}, but got sometimes"));
}

#[test]
fn unknown_trigger_keys_are_refused() {
    let mut o = JsonObject::new();
    o.insert("foo".to_string(), text("a"));
    o.insert("bar".to_string(), text("b"));
    let e = InterfaceTrigger::from_value(&JsonValue::Object(o)).unwrap_err();
    assert_eq!(e.kind(), ErrorKind::StructuralError);
    assert_eq!(e.msg(), format!("{EXPECTING}, but got bar foo"));
}

#[test]
fn trigger_of_other_type_is_refused() {
    let e = InterfaceTrigger::from_value(&JsonValue::Number(1)).unwrap_err();
    assert_eq!(e.msg(), format!("{EXPECTING}, but got not string or map"));
    let e = InterfaceTrigger::from_value(&JsonValue::Null).unwrap_err();
    assert_eq!(e.msg(), format!("{EXPECTING}, but got not string or map"));
}

#[test]
fn trigger_with_wrong_value_is_refused() {
    let e = InterfaceTrigger::from_value(&single("wifi-up", JsonValue::Number(1))).unwrap_err();
    assert_eq!(e.kind(), ErrorKind::StructuralError);
    assert_eq!(e.msg(), format!("{EXPECTING}, but got an unexpected value under wifi-up"));
    let e = InterfaceTrigger::from_value(&single("wifi-down", JsonValue::Null)).unwrap_err();
    assert_eq!(e.msg(), format!("{EXPECTING}, but got an unexpected value under wifi-down"));
    let e = InterfaceTrigger::from_value(&single("wifi-up-not", JsonValue::Bool(true))).unwrap_err();
    assert_eq!(e.msg(), format!("{EXPECTING}, but got an unexpected value under wifi-up-not"));
    let e = InterfaceTrigger::from_value(&single("carrier", text("x"))).unwrap_err();
    assert_eq!(e.msg(), format!("{EXPECTING}, but got an unexpected value under carrier"));
    let e = InterfaceTrigger::from_value(&single("carrier", single("delay", JsonValue::Number(1))))
        .unwrap_err();
    assert_eq!(e.msg(), format!("{EXPECTING}, but got an unexpected value under carrier"));
}

#[test]
fn default_trigger_is_always() {
    assert_eq!(InterfaceTrigger::default(), InterfaceTrigger::Always);
}

#[test]
fn trigger_clone_and_equality() {
    let t = InterfaceTrigger::WifiUp(Box::new("home".to_string()));
    assert_eq!(t.clone(), t);
    assert_ne!(t, InterfaceTrigger::WifiDown(Box::new("home".to_string())));
    assert_ne!(t, InterfaceTrigger::WifiUp(Box::new("work".to_string())));
}
