use examparse::settings::{load_from_content, parse_settings, render_settings, AppSettings, SettingsError};

#[test]
fn defaults_are_the_documented_record() {
    let s = AppSettings::default();
    assert_eq!(s.openai_model, "gpt-4o");
    assert_eq!(s.openai_base_url, "https://api.openai.com/v1");
    assert!(!s.ocr_enabled);
    assert!(s.first_launch);
}

#[test]
fn missing_file_means_defaults() {
    let s = load_from_content(None).unwrap();
    assert_eq!(s.openai_model, "gpt-4o");
    assert_eq!(s.openai_base_url, "https://api.openai.com/v1");
    assert!(!s.ocr_enabled);
    assert!(s.first_launch);
}

fn assert_same(a: &AppSettings, b: &AppSettings) {
    assert_eq!(a.openai_model, b.openai_model);
    assert_eq!(a.openai_base_url, b.openai_base_url);
    assert_eq!(a.ocr_enabled, b.ocr_enabled);
    assert_eq!(a.first_launch, b.first_launch);
}

#[test]
fn save_then_load_round_trips() {
    let s = AppSettings {
        openai_model: "gpt-4o-mini".to_string(),
        openai_base_url: "https://example.test/v1".to_string(),
        ocr_enabled: true,
        first_launch: false,
    };
    let text = render_settings(&s);
    let back = load_from_content(Some(&text)).unwrap();
    assert_same(&s, &back);
}

#[test]
fn round_trip_with_escapes() {
    let s = AppSettings {
        openai_model: "a \"quoted\" name \\ with backslash".to_string(),
        openai_base_url: "https://example.test/v1?q=\"x\"".to_string(),
        ocr_enabled: false,
        first_launch: true,
    };
    let text = render_settings(&s);
    let back = parse_settings(&text).unwrap();
    assert_same(&s, &back);
}

#[test]
fn malformed_content_is_a_parse_error() {
    let r = load_from_content(Some("this is not a settings record"));
    assert!(matches!(r, Err(SettingsError::ParseError)));
    let r = parse_settings("{\n  \"openai_model\": \"x\"\n}");
    assert!(matches!(r, Err(SettingsError::ParseError)));
    let r = parse_settings("");
    assert!(matches!(r, Err(SettingsError::ParseError)));
}

#[test]
fn trailing_garbage_is_a_parse_error() {
    let s = AppSettings::default();
    let mut text = render_settings(&s);
    text.push_str(" extra");
    assert!(matches!(parse_settings(&text), Err(SettingsError::ParseError)));
}

#[test]
fn reordered_members_are_a_parse_error() {
    let text = "{\n  \"openai_base_url\": \"u\",\n  \"openai_model\": \"m\",\n  \"ocr_enabled\": true,\n  \"first_launch\": false\n}";
    assert!(matches!(parse_settings(text), Err(SettingsError::ParseError)));
}

#[test]
fn wrong_value_type_is_a_parse_error() {
    let text = "{\n  \"openai_model\": true,\n  \"openai_base_url\": \"u\",\n  \"ocr_enabled\": true,\n  \"first_launch\": false\n}";
    assert!(matches!(parse_settings(text), Err(SettingsError::ParseError)));
}

#[test]
fn rendered_record_is_valid_json() {
    let s = AppSettings {
        openai_model: "model \"v2\"".to_string(),
        openai_base_url: "https://api.openai.com/v1".to_string(),
        ocr_enabled: true,
        first_launch: false,
    };
    let text = render_settings(&s);
    let v: serde_json::Value = serde_json::from_str(&text).expect("rendered settings must be JSON");
    assert_eq!(v.get("openai_model").unwrap().as_str().unwrap(), "model \"v2\"");
    assert_eq!(v.get("openai_base_url").unwrap().as_str().unwrap(), "https://api.openai.com/v1");
    assert_eq!(v.get("ocr_enabled").unwrap().as_bool().unwrap(), true);
    assert_eq!(v.get("first_launch").unwrap().as_bool().unwrap(), false);
}

#[test]
fn parses_spaced_variant() {
    let text = "  {\n  \"openai_model\" : \"m\",\n  \"openai_base_url\": \"u\",\n  \"ocr_enabled\": true,\n  \"first_launch\": false\n}\n";
    let s = parse_settings(text).unwrap();
    assert_eq!(s.openai_model, "m");
    assert_eq!(s.openai_base_url, "u");
    assert!(s.ocr_enabled);
    assert!(!s.first_launch);
}
