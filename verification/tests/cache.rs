use tmc::cache::Cache;
use tmc::data::{Dup, StrMap};
use tmc::jmap::types::{Email, Mailbox};

fn make_test_email(id: &str) -> Email {
    Email {
        id: id.to_string(),
        thread_id: None,
        from: None,
        to: None,
        cc: None,
        reply_to: None,
        subject: Some(format!("Test {}", id)),
        received_at: None,
        sent_at: None,
        preview: None,
        text_body: None,
        html_body: None,
        body_values: StrMap::new(),
        keywords: StrMap::new(),
        mailbox_ids: StrMap::new(),
        message_id: None,
        references: None,
        attachments: None,
        extra: StrMap::new(),
    }
}

#[test]
fn test_cache_put_get() {
    let mut cache = Cache::new();

    let email = make_test_email("e1");
    cache.put_emails(&[email.dup()]);

    let cached = cache.get_email("e1").unwrap();
    assert_eq!(cached.id, "e1");
    assert_eq!(cached.subject.as_deref(), Some("Test e1"));

    assert!(cache.get_email("nonexistent").is_none());
}

#[test]
fn test_cache_rules_processed() {
    let mut cache = Cache::new();

    assert!(!cache.is_rules_processed("e1"));

    let unprocessed = cache.filter_unprocessed(&["e1".into(), "e2".into(), "e3".into()]);
    assert_eq!(unprocessed.len(), 3);

    cache.mark_rules_processed(&["e1".into(), "e2".into()]);

    assert!(cache.is_rules_processed("e1"));
    assert!(cache.is_rules_processed("e2"));
    assert!(!cache.is_rules_processed("e3"));

    let unprocessed = cache.filter_unprocessed(&["e1".into(), "e2".into(), "e3".into()]);
    assert_eq!(unprocessed, vec!["e3".to_string()]);
}

#[test]
fn test_cache_mailboxes() {
    let mut cache = Cache::new();

    assert!(cache.get_mailboxes().is_none());

    let mailboxes = vec![
        Mailbox {
            id: "m1".into(),
            name: "Inbox".into(),
            parent_id: None,
            role: Some("inbox".into()),
            total_emails: 42,
            unread_emails: 3,
            sort_order: 1,
        },
        Mailbox {
            id: "m2".into(),
            name: "Sent".into(),
            parent_id: None,
            role: Some("sent".into()),
            total_emails: 100,
            unread_emails: 0,
            sort_order: 2,
        },
    ];
    cache.put_mailboxes(&mailboxes);

    let cached = cache.get_mailboxes().unwrap();
    assert_eq!(cached.len(), 2);
    assert_eq!(cached[0].id, "m1");
    assert_eq!(cached[0].name, "Inbox");
    assert_eq!(cached[0].unread_emails, 3);
    assert_eq!(cached[1].id, "m2");
    assert_eq!(cached[1].name, "Sent");
}

#[test]
fn test_cache_mailbox_index() {
    let mut cache = Cache::new();

    // No index yet
    assert!(cache.get_mailbox_emails("mbx1").is_none());

    // Store emails and index
    let e1 = make_test_email("e1");
    let e2 = make_test_email("e2");
    cache.put_emails(&[e1.dup(), e2.dup()]);
    cache.put_mailbox_index("mbx1", &["e1".into(), "e2".into()]);

    let cached = cache.get_mailbox_emails("mbx1").unwrap();
    assert_eq!(cached.len(), 2);
    assert_eq!(cached[0].id, "e1");
    assert_eq!(cached[1].id, "e2");

    // Index with missing email returns only found ones
    cache.put_mailbox_index("mbx2", &["e1".into(), "missing".into()]);
    let cached = cache.get_mailbox_emails("mbx2").unwrap();
    assert_eq!(cached.len(), 1);
    assert_eq!(cached[0].id, "e1");

    // Empty index returns empty vec
    cache.put_mailbox_index("mbx3", &[]);
    let cached = cache.get_mailbox_emails("mbx3").unwrap();
    assert!(cached.is_empty());
}

#[test]
fn test_cache_clear() {
    let mut cache = Cache::new();

    cache.put_emails(&[make_test_email("e1")]);
    cache.mark_rules_processed(&["e1".into()]);
    assert!(cache.get_email("e1").is_some());
    assert!(cache.is_rules_processed("e1"));

    cache.clear();
    assert!(cache.get_email("e1").is_none());
    assert!(!cache.is_rules_processed("e1"));
}

#[test]
fn test_cache_update_email_seen() {
    let mut cache = Cache::new();

    let email = make_test_email("e1");
    assert!(!email.keywords.contains_key("$seen"));
    cache.put_emails(&[email]);

    // Mark as seen
    cache.update_email_seen("e1", true);
    let cached = cache.get_email("e1").unwrap();
    assert!(cached.keywords.contains_key("$seen"));

    // Mark as unseen
    cache.update_email_seen("e1", false);
    let cached = cache.get_email("e1").unwrap();
    assert!(!cached.keywords.contains_key("$seen"));

    // No-op on missing email
    cache.update_email_seen("nonexistent", true);
    assert!(cache.get_email("nonexistent").is_none());
}

#[test]
fn test_cache_update_email_flagged() {
    let mut cache = Cache::new();

    let email = make_test_email("e1");
    assert!(!email.keywords.contains_key("$flagged"));
    cache.put_emails(&[email]);

    // Flag
    cache.update_email_flagged("e1", true);
    let cached = cache.get_email("e1").unwrap();
    assert!(cached.keywords.contains_key("$flagged"));

    // Unflag
    cache.update_email_flagged("e1", false);
    let cached = cache.get_email("e1").unwrap();
    assert!(!cached.keywords.contains_key("$flagged"));
}

#[test]
fn test_cache_move_and_destroy_updates_indexes_and_counts() {
    let mut cache = Cache::new();

    let mut e1 = make_test_email("e1");
    e1.mailbox_ids.insert("inbox".into(), true);
    let mut e2 = make_test_email("e2");
    e2.mailbox_ids.insert("inbox".into(), true);
    e2.keywords.insert("$seen".into(), true);
    cache.put_emails(&[e1, e2]);
    cache.put_mailbox_index("inbox", &["e1".into(), "e2".into()]);
    cache.put_mailbox_index("archive", &[]);
    cache.put_mailboxes(&[
        Mailbox {
            id: "inbox".into(),
            name: "INBOX".into(),
            parent_id: None,
            role: Some("inbox".into()),
            total_emails: 2,
            unread_emails: 1,
            sort_order: 0,
        },
        Mailbox {
            id: "archive".into(),
            name: "Archive".into(),
            parent_id: None,
            role: Some("archive".into()),
            total_emails: 0,
            unread_emails: 0,
            sort_order: 1,
        },
    ]);

    assert!(cache.apply_move_email("e1", "archive"));
    let mboxes = cache.get_mailboxes().unwrap();
    let inbox = mboxes.iter().find(|m| m.id == "inbox").unwrap();
    let archive = mboxes.iter().find(|m| m.id == "archive").unwrap();
    assert_eq!(inbox.total_emails, 1);
    assert_eq!(inbox.unread_emails, 0);
    assert_eq!(archive.total_emails, 1);
    assert_eq!(archive.unread_emails, 1);

    let inbox_ids: Vec<String> = cache
        .get_mailbox_emails("inbox")
        .unwrap_or_default()
        .iter()
        .map(|e| e.id.clone())
        .collect();
    let archive_ids: Vec<String> = cache
        .get_mailbox_emails("archive")
        .unwrap_or_default()
        .iter()
        .map(|e| e.id.clone())
        .collect();
    assert_eq!(inbox_ids, vec!["e2".to_string()]);
    assert_eq!(archive_ids, vec!["e1".to_string()]);

    assert!(cache.apply_destroy_email("e1"));
    let mboxes = cache.get_mailboxes().unwrap();
    let archive = mboxes.iter().find(|m| m.id == "archive").unwrap();
    assert_eq!(archive.total_emails, 0);
    assert_eq!(archive.unread_emails, 0);
    assert!(cache.get_email("e1").is_none());
}

#[test]
fn test_cache_queue_persistence() {
    let mut cache = Cache::new();
    let s1 = cache.enqueue_operation(br#"{"kind":"a"}"#);
    let s2 = cache.enqueue_operation(br#"{"kind":"b"}"#);
    assert!(s2 > s1);
    let ops = cache.queued_operations();
    assert_eq!(ops.len(), 2);
    assert_eq!(ops[0].0, s1);
    assert_eq!(ops[1].0, s2);
    assert!(cache.remove_queued_operation(s1));
    let ops = cache.queued_operations();
    assert_eq!(ops.len(), 1);
    assert_eq!(ops[0].0, s2);
}
