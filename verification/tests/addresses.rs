use tmc::jmap::types::EmailAddress;

#[test]
fn test_email_address_display_name_and_email() {
    let addr = EmailAddress {
        name: Some("Alice".to_string()),
        email: Some("alice@example.com".to_string()),
    };
    assert_eq!(addr.to_string(), "Alice <alice@example.com>");
}

#[test]
fn test_email_address_display_email_only() {
    let addr = EmailAddress {
        name: None,
        email: Some("alice@example.com".to_string()),
    };
    assert_eq!(addr.to_string(), "alice@example.com");
}

#[test]
fn test_email_address_display_name_only() {
    let addr = EmailAddress {
        name: Some("Alice".to_string()),
        email: None,
    };
    assert_eq!(addr.to_string(), "Alice");
}

#[test]
fn test_email_address_display_unknown() {
    let addr = EmailAddress {
        name: None,
        email: None,
    };
    assert_eq!(addr.to_string(), "(unknown)");
}
