use openless::ios::{keyboard_status_from_identifiers, KeyboardConfig};

#[test]
fn default_config_is_unconfigured() {
    let config = KeyboardConfig::default();
    assert!(!config.is_configured());
}

#[test]
fn a_filled_in_config_is_configured() {
    let config = KeyboardConfig {
        endpoint: "https://api.example.com/v1".into(),
        api_key: "sk-test".into(),
        model: "whisper-1".into(),
        prompt: String::new(),
    };
    assert!(config.is_configured());
    let missing_model = KeyboardConfig {
        model: String::new(),
        ..config
    };
    assert!(!missing_model.is_configured());
}

#[test]
fn the_first_own_keyboard_is_reported() {
    let ids = vec![
        "com.apple.keyboard".to_string(),
        "com.openless.app.OpenLessKeyboard".to_string(),
        "com.openless.app.Other".to_string(),
    ];
    let status = keyboard_status_from_identifiers(&ids);
    assert!(status.enabled);
    assert_eq!(
        status.identifier.as_deref(),
        Some("com.openless.app.OpenLessKeyboard")
    );
    let none = keyboard_status_from_identifiers(&vec!["com.apple.keyboard".to_string()]);
    assert!(!none.enabled && none.identifier.is_none());
}
