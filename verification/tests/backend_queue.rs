use tmc::backend::queue::{
    apply_local_mutation, queued_mutations_for_retention, queued_mutations_for_rule_actions,
};
use tmc::backend::{QueuedMutation, RetentionCandidate};
use tmc::cache::Cache;
use tmc::data::{Dup, StrMap};
use tmc::jmap::types::{Email, Mailbox};
use tmc::rules::{Action, RuleApplication};

fn make_email(id: &str) -> Email {
    Email {
        id: id.to_string(),
        thread_id: Some("thread-1".to_string()),
        from: None,
        to: None,
        cc: None,
        reply_to: None,
        subject: Some(format!("Subject {}", id)),
        received_at: Some("2025-01-01T00:00:00Z".to_string()),
        sent_at: None,
        preview: None,
        text_body: None,
        html_body: None,
        body_values: StrMap::new(),
        keywords: StrMap::new(),
        mailbox_ids: StrMap::new(),
        message_id: None,
        references: None,
        attachments: None,
        extra: StrMap::new(),
    }
}

#[test]
fn queued_rule_actions_compile_to_email_mutations() {
    let mailboxes = vec![
        Mailbox {
            id: "inbox".to_string(),
            name: "INBOX".to_string(),
            parent_id: None,
            role: Some("inbox".to_string()),
            total_emails: 1,
            unread_emails: 1,
            sort_order: 0,
        },
        Mailbox {
            id: "archive".to_string(),
            name: "Archive".to_string(),
            parent_id: None,
            role: Some("archive".to_string()),
            total_emails: 0,
            unread_emails: 0,
            sort_order: 1,
        },
        Mailbox {
            id: "trash".to_string(),
            name: "Trash".to_string(),
            parent_id: None,
            role: Some("trash".to_string()),
            total_emails: 0,
            unread_emails: 0,
            sort_order: 2,
        },
    ];
    let apps = vec![RuleApplication {
        email_id: "e1".to_string(),
        rule_name: "r1".to_string(),
        actions: vec![
            Action::MarkRead,
            Action::Flag,
            Action::Move {
                target: "Archive".to_string(),
            },
            Action::Delete,
        ],
    }];

    let mut counter: u64 = 1;
    let ops = queued_mutations_for_rule_actions(&apps, &mailboxes, &mut counter);
    assert_eq!(ops.len(), 4);
    assert!(ops
        .iter()
        .any(|op| matches!(op, QueuedMutation::MarkRead { id, .. } if id == "e1")));
    assert!(ops.iter().any(
        |op| matches!(op, QueuedMutation::SetFlagged { id, flagged, .. } if id == "e1" && *flagged)
    ));
    let move_targets: Vec<String> = ops
        .iter()
        .filter_map(|op| match op {
            QueuedMutation::MoveEmail {
                id, to_mailbox_id, ..
            } if id == "e1" => Some(to_mailbox_id.clone()),
            _ => None,
        })
        .collect();
    assert_eq!(move_targets.len(), 2);
    assert!(move_targets.contains(&"archive".to_string()));
    assert!(move_targets.contains(&"trash".to_string()));
}

#[test]
fn apply_local_mark_thread_read_updates_seen_and_unread_counts() {
    let mut cache = Cache::new();

    let mut e1 = make_email("e1");
    e1.mailbox_ids.insert("inbox".to_string(), true);
    let mut e2 = make_email("e2");
    e2.mailbox_ids.insert("inbox".to_string(), true);
    cache.put_emails(&[e1.dup(), e2.dup()]);
    cache.put_mailbox_index("inbox", &["e1".into(), "e2".into()]);
    cache.put_mailboxes(&[Mailbox {
        id: "inbox".to_string(),
        name: "INBOX".to_string(),
        parent_id: None,
        role: Some("inbox".to_string()),
        total_emails: 2,
        unread_emails: 2,
        sort_order: 0,
    }]);

    let op = QueuedMutation::MarkThreadRead {
        thread_id: "thread-1".to_string(),
        email_ids: vec!["e1".to_string(), "e2".to_string()],
    };
    apply_local_mutation(&mut cache, &op);

    assert!(cache
        .get_email("e1")
        .unwrap()
        .keywords
        .contains_key("$seen"));
    assert!(cache
        .get_email("e2")
        .unwrap()
        .keywords
        .contains_key("$seen"));
    assert_eq!(cache.get_mailboxes().unwrap()[0].unread_emails, 0);
}

#[test]
fn queued_retention_actions_map_to_destroy_email_ops() {
    let candidates = vec![
        RetentionCandidate {
            id: "e1".to_string(),
            mailbox: "Trash".to_string(),
            policy: "p".to_string(),
            received_at: "2024-01-01".to_string(),
            from: "a@example.com".to_string(),
            subject: "s1".to_string(),
        },
        RetentionCandidate {
            id: "e2".to_string(),
            mailbox: "Trash".to_string(),
            policy: "p".to_string(),
            received_at: "2024-01-02".to_string(),
            from: "b@example.com".to_string(),
            subject: "s2".to_string(),
        },
    ];
    let mut counter: u64 = 1;
    let ops = queued_mutations_for_retention(&candidates, &mut counter);
    assert_eq!(ops.len(), 2);
    assert!(matches!(
        &ops[0],
        QueuedMutation::DestroyEmail { id, .. } if id == "e1"
    ));
    assert!(matches!(
        &ops[1],
        QueuedMutation::DestroyEmail { id, .. } if id == "e2"
    ));
}
