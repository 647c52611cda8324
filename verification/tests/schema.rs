use codex_skin::json::{read_json, Json};
use codex_skin::schema::{
    closed_object, optional_choice, optional_integer, optional_range, required_text,
    validate_background_focus, validate_effect_triggers,
};

fn object(members: Vec<(&str, Json)>) -> Json {
    Json::Object(
        members
            .into_iter()
            .map(|(name, value)| (name.to_string(), value))
            .collect(),
    )
}

fn text(value: &str) -> Json {
    Json::Text(value.to_string())
}

fn json(text: &str) -> Json {
    read_json(text.as_bytes()).unwrap()
}

#[test]
fn rejects_background_fit_in_public_theme_contract() {
    let theme = object(vec![("backgroundFit", text("cover"))]);
    let error =
        closed_object(&theme, &["accent", "ink", "surface"], &[], "theme.theme").unwrap_err();
    assert!(error
        .message()
        .contains("theme.theme 包含未知字段：backgroundFit"));
}

#[test]
fn validates_precise_background_focus() {
    let focus = |x: Json, y: u64| object(vec![("x", x), ("y", Json::Unsigned(y))]);
    validate_background_focus(&focus(Json::Unsigned(72), 24)).unwrap();
    assert!(validate_background_focus(&focus(Json::Unsigned(101), 24)).is_err());
    assert!(validate_background_focus(&focus(Json::Float(50.5f64.to_bits()), 24)).is_err());
    assert!(validate_background_focus(&object(vec![
        ("x", Json::Unsigned(50)),
        ("y", Json::Unsigned(24)),
        ("z", Json::Unsigned(1)),
    ]))
    .is_err());
}

#[test]
fn validates_safe_effect_triggers() {
    let triggers = |list: &[&str]| Json::Array(list.iter().map(|item| text(item)).collect());
    validate_effect_triggers(&triggers(&["task-start", "message-send"])).unwrap();
    assert!(validate_effect_triggers(&triggers(&["task-start", "task-start"])).is_err());
    assert!(validate_effect_triggers(&triggers(&["click-anywhere"])).is_err());
    assert!(validate_effect_triggers(&triggers(&[])).is_err());
}

#[test]
fn focus_and_triggers_say_what_is_wrong() {
    let focus = |document: &str| validate_background_focus(&json(document)).unwrap_err().message();
    assert_eq!(focus(r#"[]"#), "theme.backgroundFocus 必须是对象。");
    assert_eq!(focus(r#"{"x":1}"#), "theme.backgroundFocus 缺少字段：y");
    assert_eq!(
        focus(r#"{"x":1,"y":101}"#),
        "背景焦点 y 必须是 0–100 的整数。"
    );
    assert_eq!(
        focus(r#"{"x":-1,"y":1}"#),
        "背景焦点 x 必须是 0–100 的整数。"
    );
    validate_background_focus(&json(r#"{"x":0,"y":100}"#)).unwrap();
    let triggers =
        |document: &str| validate_effect_triggers(&json(document)).unwrap_err().message();
    assert_eq!(triggers(r#""task-start""#), "特效触发器必须是数组。");
    assert_eq!(triggers(r#"[1]"#), "特效触发器必须是字符串。");
    assert_eq!(
        triggers(r#"["task-start","message-send","task-start"]"#),
        "特效触发器数量无效。"
    );
    assert_eq!(
        triggers(r#"["message-send","message-send"]"#),
        "特效触发器无效或重复。"
    );
}

#[test]
fn closed_objects() {
    let value = json(r#"{"a":1,"b":2}"#);
    assert!(closed_object(&value, &["a", "b", "c"], &["a"], "x").is_ok());
    assert_eq!(
        closed_object(&value, &["a", "b", "c"], &["a", "c"], "x")
            .unwrap_err()
            .message(),
        "x 缺少字段：c"
    );
    assert_eq!(
        closed_object(&value, &["c"], &["c"], "x").unwrap_err().message(),
        "x 包含未知字段：a"
    );
    assert_eq!(
        closed_object(&json("null"), &[], &[], "x").unwrap_err().message(),
        "x 必须是对象。"
    );
}

#[test]
fn texts_count_characters() {
    let value = json(r#"{"a":"主题","b":"","c":3}"#);
    assert_eq!(required_text(&value, "a", 2).unwrap(), "主题");
    assert_eq!(
        required_text(&value, "a", 1).unwrap_err().message(),
        "a 长度无效。"
    );
    assert_eq!(
        required_text(&value, "b", 9).unwrap_err().message(),
        "b 长度无效。"
    );
    assert_eq!(
        required_text(&value, "c", 9).unwrap_err().message(),
        "c 必须是字符串。"
    );
    assert_eq!(
        required_text(&value, "d", 9).unwrap_err().message(),
        "d 必须是字符串。"
    );
}

#[test]
fn choices_ranges_and_integers() {
    let value = json(r#"{"a":"x","n":0.5,"big":1.0000001,"minus":-0.5,"zero":-0.0,"i":80,"t":"8"}"#);
    let one = 1.0f64.to_bits();
    assert!(optional_choice(&value, "a", &["x", "y"], "no text", "no choice").is_ok());
    assert_eq!(
        optional_choice(&value, "a", &["y"], "no text", "no choice")
            .unwrap_err()
            .message(),
        "no choice"
    );
    assert_eq!(
        optional_choice(&value, "n", &["y"], "no text", "no choice")
            .unwrap_err()
            .message(),
        "no text"
    );
    assert!(optional_choice(&value, "missing", &["y"], "no text", "no choice").is_ok());
    assert!(optional_range(&value, "n", 1, one, "out").is_ok());
    assert!(optional_range(&value, "zero", 1, one, "out").is_ok());
    assert!(optional_range(&value, "t", 1, one, "out").is_ok());
    assert_eq!(
        optional_range(&value, "big", 1, one, "out").unwrap_err().message(),
        "out"
    );
    assert!(optional_range(&value, "minus", 1, one, "out").is_err());
    assert!(optional_range(&value, "i", 1, one, "out").is_err());
    assert!(optional_integer(&value, "i", 10, 80, "no integer", "out").is_ok());
    assert_eq!(
        optional_integer(&value, "i", 10, 79, "no integer", "out")
            .unwrap_err()
            .message(),
        "out"
    );
    assert_eq!(
        optional_integer(&value, "n", 10, 79, "no integer", "out")
            .unwrap_err()
            .message(),
        "no integer"
    );
}
