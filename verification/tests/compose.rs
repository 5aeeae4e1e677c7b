use std::path::PathBuf;

use tmc::compose::{
    build_compose_draft, build_forward_draft, build_reply_draft, draft_dir_from_env,
};
use tmc::data::StrMap;
use tmc::jmap::types::{Email, EmailAddress};

#[test]
fn test_build_compose_draft() {
    let draft = build_compose_draft("me@example.com");
    assert!(draft.contains("From: me@example.com"));
    assert!(draft.contains("To: \n"));
    assert!(draft.contains("Subject: \n"));
    assert!(draft.contains("--text follows this line--"));
}

#[test]
fn test_build_reply_draft() {
    let email = Email {
        id: "test-id".to_string(),
        thread_id: None,
        from: Some(vec![EmailAddress {
            name: Some("Sender".to_string()),
            email: Some("sender@example.com".to_string()),
        }]),
        to: Some(vec![EmailAddress {
            name: None,
            email: Some("me@example.com".to_string()),
        }]),
        cc: None,
        reply_to: None,
        subject: Some("Hello".to_string()),
        received_at: Some("2024-01-01T00:00:00Z".to_string()),
        sent_at: Some("2024-01-01T00:00:00Z".to_string()),
        preview: Some("Preview text".to_string()),
        text_body: None,
        html_body: None,
        body_values: StrMap::new(),
        keywords: StrMap::new(),
        mailbox_ids: StrMap::new(),
        message_id: Some(vec!["abc@example.com".to_string()]),
        references: None,
        attachments: None,
        extra: StrMap::new(),
    };

    let draft = build_reply_draft(&email, false, "me@example.com");
    assert!(draft.contains("To: Sender <sender@example.com>"));
    assert!(draft.contains("Subject: Re: Hello"));
    assert!(draft.contains("In-Reply-To: <abc@example.com>"));
    assert!(draft.contains("> Preview text"));

    // Reply-all should include original To minus self
    let draft_all = build_reply_draft(&email, true, "me@example.com");
    assert!(!draft_all.contains("Cc:")); // self was the only To recipient
}

#[test]
fn test_build_reply_draft_reply_all_skips_self_for_named_from_header() {
    let email = Email {
        id: "test-id".to_string(),
        thread_id: None,
        from: Some(vec![EmailAddress {
            name: Some("Sender".to_string()),
            email: Some("sender@example.com".to_string()),
        }]),
        to: Some(vec![
            EmailAddress {
                name: Some("Example User".to_string()),
                email: Some("user@example.com".to_string()),
            },
            EmailAddress {
                name: Some("Other".to_string()),
                email: Some("other@example.com".to_string()),
            },
        ]),
        cc: None,
        reply_to: None,
        subject: Some("Hello".to_string()),
        received_at: Some("2024-01-01T00:00:00Z".to_string()),
        sent_at: Some("2024-01-01T00:00:00Z".to_string()),
        preview: Some("Preview text".to_string()),
        text_body: None,
        html_body: None,
        body_values: StrMap::new(),
        keywords: StrMap::new(),
        mailbox_ids: StrMap::new(),
        message_id: Some(vec!["abc@example.com".to_string()]),
        references: None,
        attachments: None,
        extra: StrMap::new(),
    };

    let draft = build_reply_draft(&email, true, "Example User <user@example.com>");
    assert!(!draft.contains("Cc: Example User <user@example.com>"));
    assert!(draft.contains("Cc: Other <other@example.com>"));
}

#[test]
fn test_build_forward_draft() {
    let email = Email {
        id: "test-id".to_string(),
        thread_id: None,
        from: Some(vec![EmailAddress {
            name: Some("Sender".to_string()),
            email: Some("sender@example.com".to_string()),
        }]),
        to: Some(vec![EmailAddress {
            name: None,
            email: Some("me@example.com".to_string()),
        }]),
        cc: Some(vec![EmailAddress {
            name: Some("Other".to_string()),
            email: Some("other@example.com".to_string()),
        }]),
        reply_to: None,
        subject: Some("Hello".to_string()),
        received_at: Some("2024-01-01T00:00:00Z".to_string()),
        sent_at: Some("2024-01-01T00:00:00Z".to_string()),
        preview: Some("Preview text".to_string()),
        text_body: None,
        html_body: None,
        body_values: StrMap::new(),
        keywords: StrMap::new(),
        mailbox_ids: StrMap::new(),
        message_id: None,
        references: None,
        attachments: None,
        extra: StrMap::new(),
    };

    let draft = build_forward_draft(&email, "me@example.com");
    assert!(draft.contains("From: me@example.com"));
    assert!(draft.contains("To: \n"));
    assert!(draft.contains("Subject: Fwd: Hello"));
    assert!(draft.contains("---------- Forwarded message ----------"));
    assert!(draft.contains("From: Sender <sender@example.com>"));
    assert!(draft.contains("Date: 2024-01-01T00:00:00Z"));
    assert!(draft.contains("Subject: Hello"));
    assert!(draft.contains("To: me@example.com"));
    assert!(draft.contains("Cc: Other <other@example.com>"));
    assert!(draft.contains("Preview text"));
}

#[test]
fn test_build_forward_draft_already_prefixed() {
    let email = Email {
        id: "test-id".to_string(),
        thread_id: None,
        from: Some(vec![EmailAddress {
            name: None,
            email: Some("sender@example.com".to_string()),
        }]),
        to: None,
        cc: None,
        reply_to: None,
        subject: Some("Fwd: Already forwarded".to_string()),
        received_at: None,
        sent_at: None,
        preview: Some("body".to_string()),
        text_body: None,
        html_body: None,
        body_values: StrMap::new(),
        keywords: StrMap::new(),
        mailbox_ids: StrMap::new(),
        message_id: None,
        references: None,
        attachments: None,
        extra: StrMap::new(),
    };

    let draft = build_forward_draft(&email, "me@example.com");
    assert!(draft.contains("Subject: Fwd: Already forwarded\n"));
    // Should not double-prefix
    assert!(!draft.contains("Fwd: Fwd:"));
}

#[test]
fn test_draft_dir_uses_xdg_runtime_dir() {
    assert_eq!(
        PathBuf::from(draft_dir_from_env(
            Some("/tmp/runtime-test".to_string()),
            Some("/tmp/state-test".to_string()),
            Some("/home/example".to_string())
        )),
        PathBuf::from("/tmp/runtime-test")
            .join("tmc")
            .join("drafts")
    );
}

#[test]
fn test_draft_dir_falls_back_to_state_home() {
    assert_eq!(
        PathBuf::from(draft_dir_from_env(
            None,
            Some("/tmp/state-test".to_string()),
            Some("/home/example".to_string())
        )),
        PathBuf::from("/tmp/state-test").join("tmc").join("drafts")
    );
}

#[test]
fn test_draft_dir_falls_back_to_home_state() {
    assert_eq!(
        PathBuf::from(draft_dir_from_env(None, None, Some("/home/example".to_string()))),
        PathBuf::from("/home/example")
            .join(".local")
            .join("state")
            .join("tmc")
            .join("drafts")
    );
}
