use it_management::config::{credential_from_env, mask_credential};
use it_management::theme::ThemeState;

#[test]
fn test_lib_initialization() {
    // Test that our test lib setup works
    assert!(true);
}

#[test]
fn theme_defaults_to_light() {
    let theme = ThemeState::default();
    assert!(!theme.is_dark);
    assert_eq!(theme.unwrap_or_default(), theme);
}

#[test]
fn missing_credential_fails_loudly() {
    assert_eq!(credential_from_env(None).unwrap_err(), "SSH_PASSWORD is not set");
    assert_eq!(credential_from_env(Some("hunter2".to_string())).unwrap(), "hunter2");
}

#[test]
fn credentials_are_masked_for_logs() {
    assert_eq!(mask_credential("abcdefgh"), "****efgh");
    assert_eq!(mask_credential("abcd"), "abcd");
    assert_eq!(mask_credential("ab"), "ab");
    assert_eq!(mask_credential(""), "");
}
