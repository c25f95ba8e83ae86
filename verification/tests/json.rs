use mediary_plugins::clock::{clock_reading, seconds_or_zero, unix_time};
use mediary_plugins::codec::{parse_json, render_json};
use mediary_plugins::input::{accept_parameters, read_action_input, required};
use mediary_plugins::json::{duplicate_all, Json, JsonObject};
use mediary_plugins::settings::{read_settings, setting, setting_bool, setting_i64, setting_text, setting_u64};

#[test]
fn reads_what_json_text_says() {
    let value = parse_json(r#"{"a": [1, -2, 2.5, "x", true, null], "b": {"c": 18446744073709551615}}"#).unwrap();
    let items = value.get("a").unwrap().as_array().unwrap();
    assert_eq!(items.len(), 6);
    assert_eq!(items[0].as_i64(), Some(1));
    assert_eq!(items[0].as_u64(), Some(1));
    assert_eq!(items[1].as_i64(), Some(-2));
    assert_eq!(items[1].as_u64(), None);
    assert_eq!(items[2].as_i64(), None);
    assert_eq!(items[3].as_str(), Some("x"));
    assert_eq!(items[4].as_bool(), Some(true));
    assert!(matches!(items[5], Json::Null));
    let large = value.get("b").unwrap().get("c").unwrap();
    assert_eq!(large.as_u64(), Some(u64::MAX));
    assert_eq!(large.as_i64(), None);
    assert!(value.get("missing").is_none());
    assert!(items[3].get("a").is_none());
}

#[test]
fn writes_compact_json_with_sorted_members() {
    let value = Json::Object(
        JsonObject::new()
            .with("z", Json::Signed(-3))
            .with("a", Json::text("引号\"与\\"))
            .with("n", Json::Null)
            .with("z", Json::Array(vec![Json::Bool(false), Json::Unsigned(7)])),
    );
    let text = render_json(&value);
    assert_eq!(text, r#"{"a":"引号\"与\\","n":null,"z":[false,7]}"#);
    assert_eq!(render_json(&parse_json(&text).unwrap()), text);
    assert_eq!(render_json(&value.duplicate()), text);
    assert_eq!(duplicate_all(&vec![value]).len(), 1);
}

#[test]
fn decimals_are_carried_through() {
    let value = parse_json("[8.25, -0.5]").unwrap();
    assert_eq!(render_json(&value), "[8.25,-0.5]");
    assert_eq!(render_json(&value.duplicate()), "[8.25,-0.5]");
}

#[test]
fn invalid_json_gives_an_error() {
    let error = parse_json("{").unwrap_err();
    assert!(error.starts_with("EOF while parsing"), "{}", error);
}

#[test]
fn action_input_may_be_blank() {
    assert!(matches!(read_action_input(" \n"), Ok(Json::Null)));
    assert_eq!(read_action_input(r#"{"x": 1}"#).unwrap().get("x").unwrap().as_u64(), Some(1));
    let error = read_action_input("nope").unwrap_err();
    assert!(error.starts_with("动作参数不是有效 JSON: expected ident"), "{}", error);
    assert_eq!(accept_parameters(Err("x".to_string())).unwrap_err(), "动作参数不是有效 JSON: x");
}

#[test]
fn required_variables_are_named_when_missing() {
    assert_eq!(required("KEY", Some("v".to_string())), Ok("v".to_string()));
    assert_eq!(required("KEY", None), Err("缺少环境变量 KEY".to_string()));
}

#[test]
fn settings_fall_back_to_defaults() {
    let settings = read_settings(Some(r#"{"s": "x", "b": true, "n": 5, "neg": -5, "wrong": []}"#));
    assert_eq!(setting(&settings, "s"), "x");
    assert_eq!(setting(&settings, "wrong"), "");
    assert_eq!(setting_text(&settings, "missing", "d"), "d");
    assert!(setting_bool(&settings, "b", false));
    assert!(setting_bool(&settings, "s", true));
    assert_eq!(setting_u64(&settings, "n", 1), 5);
    assert_eq!(setting_u64(&settings, "neg", 1), 1);
    assert_eq!(setting_i64(&settings, "neg", 1), -5);
    assert_eq!(setting_i64(&settings, "wrong", 9), 9);
    assert_eq!(setting(&read_settings(None), "s"), "");
    assert_eq!(setting(&read_settings(Some("[1]")), "s"), "");
    assert_eq!(setting(&read_settings(Some("{")), "s"), "");
}

#[test]
fn the_clock_runs_after_the_epoch() {
    assert_eq!(seconds_or_zero(Some(5)), 5);
    assert_eq!(seconds_or_zero(None), 0);
    assert!(unix_time() > 1_600_000_000);
    assert!(clock_reading().is_some());
}
