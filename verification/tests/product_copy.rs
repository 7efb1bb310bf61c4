use cosmic_scribe::product_copy::{
    access_how_speech_works, active_auth_detail, analytics_item_description, configure_auth_help,
    no_credentials_error, setup_needed_notification_body, setup_needed_notification_title,
    sign_in_comes_before_api_key, sign_in_item_description, sign_in_item_title,
};

fn description_ok(s: &str) -> bool {
    s.chars().count() <= 90
}

#[test]
fn product_copy_sign_in_is_ordinary_path_not_optional_hero() {
    assert_eq!(sign_in_item_title(), "Sign in");
    assert!(!sign_in_item_title().to_ascii_lowercase().contains("optional"));
    assert!(sign_in_item_description().contains("SuperGrok"));
    assert!(description_ok(sign_in_item_description()));
    let access = access_how_speech_works();
    assert!(access.starts_with("Sign in"));
    assert!(access.contains("API key"));
    assert!(description_ok(access));
    let none = active_auth_detail("none").to_ascii_lowercase();
    let sign_at = none.find("sign in").expect("sign in first");
    let key_at = none.find("api key").expect("api key second");
    assert!(sign_at < key_at);
    assert!(description_ok(analytics_item_description()));
    assert!(analytics_item_description().to_ascii_lowercase().contains("off by default"));
    assert!(!access_how_speech_works().contains("OpenRouter"));
    assert!(!access_how_speech_works().contains("AI fix"));
    assert!(!sign_in_item_description().contains("rewrite"));
}

#[test]
fn first_run_and_empty_state_copy_is_signin_first() {
    for (name, s) in [
        ("notify", setup_needed_notification_body()),
        ("stt_error", no_credentials_error()),
        ("configure", configure_auth_help()),
    ] {
        assert!(sign_in_comes_before_api_key(s), "{name} must mention sign-in/--login before API key:\n{s}");
        let lower = s.to_ascii_lowercase();
        assert!(!lower.contains("optional"), "{name} must not call login optional:\n{s}");
        assert!(!lower.starts_with("add an api key"), "{name} must not lead with the key:\n{s}");
    }
    assert_eq!(setup_needed_notification_title(), "Set up speech access");
}

#[test]
fn sign_in_order_check_rejects_key_first_copy() {
    assert!(!sign_in_comes_before_api_key("Add an API key, or sign in"));
    assert!(sign_in_comes_before_api_key("Run --login, or add an API key"));
}
