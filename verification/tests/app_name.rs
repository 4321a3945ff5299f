use vade::app_name::{AppName, AppNameError};

#[test]
fn test_empty() {
    assert!(AppName::from_str("").is_err());
}

#[test]
fn test_valid() {
    assert!(AppName::from_str("foo").is_ok());
    assert!(AppName::from_str("foo-bar").is_ok());
    assert!(AppName::from_str("foo42_bar").is_ok());
}

#[test]
fn test_invalid() {
    // Non-alphabetic start
    assert!(AppName::from_str("-foo").is_err());
    assert!(AppName::from_str("42foo").is_err());
    assert!(AppName::from_str("_foo").is_err());

    // Disallowed chars
    assert!(AppName::from_str("foo:bar").is_err());
    assert!(AppName::from_str("foo/bar").is_err());
    assert!(AppName::from_str("foo?bar").is_err());
}

#[test]
fn app_name_keeps_its_text() {
    let name = AppName::from_str("my-App_2").unwrap();
    assert_eq!(name.as_str(), "my-App_2");
    assert!(name.is_valid());
    assert_eq!(name.clone().as_str(), "my-App_2");
}

#[test]
fn app_name_errors_tell_start_from_characters() {
    assert_eq!(AppName::from_str("").unwrap_err(), AppNameError::BadStart);
    assert_eq!(AppName::from_str("9lives").unwrap_err(), AppNameError::BadStart);
    assert_eq!(AppName::from_str("a b").unwrap_err(), AppNameError::BadChar);
    assert_eq!(
        AppNameError::BadChar.message(),
        "only alphanumeric ASCII characters, dashes (`-`), and underscores (`_`) are allowed"
    );
}

#[test]
fn app_names_display_as_their_text() {
    let name = AppName::from_str("my-app").unwrap();
    assert_eq!(name.to_string(), "my-app");
    assert_eq!(name.to_string(), name.as_str());
}
