use tmc::backend::{BackendCommand, BackendResponse, EmailMutationAction};
use tmc::data::StrMap;
use tmc::jmap::types::{Email, Mailbox};
use tmc::tui::input::Key;
use tmc::tui::views::email_list::EmailListView;
use tmc::tui::views::Outbox;

fn make_email(id: &str, thread_id: &str) -> Email {
    Email {
        id: id.to_string(),
        thread_id: Some(thread_id.to_string()),
        from: None,
        to: None,
        cc: None,
        reply_to: None,
        subject: Some(format!("Subject {}", id)),
        received_at: Some("2025-01-01".to_string()),
        sent_at: None,
        preview: None,
        text_body: None,
        html_body: None,
        body_values: StrMap::new(),
        keywords: StrMap::new(),
        mailbox_ids: StrMap::new(),
        message_id: None,
        references: None,
        attachments: None,
        extra: StrMap::new(),
    }
}

fn make_mailboxes() -> Vec<Mailbox> {
    vec![
        Mailbox {
            id: "mbox-inbox".to_string(),
            name: "Inbox".to_string(),
            parent_id: None,
            role: Some("inbox".to_string()),
            total_emails: 10,
            unread_emails: 2,
            sort_order: 0,
        },
        Mailbox {
            id: "mbox-archive".to_string(),
            name: "Archive".to_string(),
            parent_id: None,
            role: Some("archive".to_string()),
            total_emails: 100,
            unread_emails: 0,
            sort_order: 0,
        },
        Mailbox {
            id: "mbox-trash".to_string(),
            name: "Trash".to_string(),
            parent_id: None,
            role: Some("trash".to_string()),
            total_emails: 5,
            unread_emails: 0,
            sort_order: 0,
        },
    ]
}

fn make_view() -> (EmailListView, Outbox) {
    let cmd_rx = Outbox::new();
    let mailboxes = make_mailboxes();
    let mut view = EmailListView::new(
        "me@example.com".to_string(),
        "mbox-inbox".to_string(),
        "Inbox".to_string(),
        50,
        mailboxes,
        "Archive".to_string(),
        "Trash".to_string(),
        None,
    );
    view.loading = false;

    // Add emails: two in the same thread, one standalone
    let e1 = make_email("email-1", "thread-A");
    let e2 = make_email("email-2", "thread-A");
    let e3 = make_email("email-3", "thread-B");
    view.emails = vec![e1, e2, e3];
    view.total = Some(3);
    // Mark thread-A as having 2 emails (so it's a multi-email thread)
    view.thread_counts.insert("thread-A".to_string(), (0, 2));
    view.thread_counts.insert("thread-B".to_string(), (0, 1));

    (view, cmd_rx)
}

#[test]
fn archive_sends_move_email_not_move_thread() {
    let (mut view, mut cmd_rx) = make_view();
    // Cursor is on email-1, which is in thread-A (2 emails in thread)
    view.cursor = 0;

    view.handle_key(Key::Char('a'), 24, &mut cmd_rx);

    // Drain any QueryEmails from constructor, then find MoveEmail
    let mut found_move_email = false;
    for cmd in cmd_rx.sent {
        match cmd {
            BackendCommand::MoveEmail {
                id, to_mailbox_id, ..
            } => {
                assert_eq!(id, "email-1");
                assert_eq!(to_mailbox_id, "mbox-archive");
                found_move_email = true;
            }
            BackendCommand::MoveThread { .. } => {
                panic!("archive should send MoveEmail, not MoveThread");
            }
            _ => {}
        }
    }
    assert!(found_move_email, "expected MoveEmail command for archive");
}

#[test]
fn delete_sends_move_email_not_move_thread() {
    let (mut view, mut cmd_rx) = make_view();
    view.cursor = 0;

    view.handle_key(Key::Char('d'), 24, &mut cmd_rx);

    let mut found_move_email = false;
    for cmd in cmd_rx.sent {
        match cmd {
            BackendCommand::MoveEmail {
                id, to_mailbox_id, ..
            } => {
                assert_eq!(id, "email-1");
                assert_eq!(to_mailbox_id, "mbox-trash");
                found_move_email = true;
            }
            BackendCommand::MoveThread { .. } => {
                panic!("delete should send MoveEmail, not MoveThread");
            }
            _ => {}
        }
    }
    assert!(found_move_email, "expected MoveEmail command for delete");
}

#[test]
fn move_mode_sends_move_email_not_move_thread() {
    let (mut view, mut cmd_rx) = make_view();
    view.cursor = 0;

    // Enter move mode
    view.handle_key(Key::Char('m'), 24, &mut cmd_rx);
    assert!(view.move_mode);

    // Select the second mailbox (Archive) and confirm
    view.handle_key(Key::Char('n'), 24, &mut cmd_rx);
    view.handle_key(Key::Enter, 24, &mut cmd_rx);

    let mut found_move_email = false;
    for cmd in cmd_rx.sent {
        match cmd {
            BackendCommand::MoveEmail {
                id, to_mailbox_id, ..
            } => {
                assert_eq!(id, "email-1");
                assert_eq!(to_mailbox_id, "mbox-archive");
                found_move_email = true;
            }
            BackendCommand::MoveThread { .. } => {
                panic!("move should send MoveEmail, not MoveThread");
            }
            _ => {}
        }
    }
    assert!(found_move_email, "expected MoveEmail command for move");
}

#[test]
fn expire_sends_destroy_email_not_destroy_thread() {
    let mut cmd_rx = Outbox::new();
    let mailboxes = make_mailboxes();
    let mut view = EmailListView::new(
        "me@example.com".to_string(),
        "mbox-trash".to_string(),
        "Trash".to_string(),
        50,
        mailboxes,
        "Archive".to_string(),
        "Trash".to_string(),
        None,
    );
    view.loading = false;

    let e1 = make_email("email-1", "thread-A");
    view.emails = vec![e1];
    view.total = Some(1);
    view.thread_counts.insert("thread-A".to_string(), (0, 3));
    view.cursor = 0;

    view.handle_key(Key::Char('D'), 24, &mut cmd_rx);

    let mut found_destroy_email = false;
    for cmd in cmd_rx.sent {
        match cmd {
            BackendCommand::DestroyEmail { id, .. } => {
                assert_eq!(id, "email-1");
                found_destroy_email = true;
            }
            BackendCommand::DestroyThread { .. } => {
                panic!("expire should send DestroyEmail, not DestroyThread");
            }
            _ => {}
        }
    }
    assert!(
        found_destroy_email,
        "expected DestroyEmail command for expire"
    );
}

#[test]
fn status_bar_shows_server_total_not_loaded_count() {
    let (mut view, _cmd_rx) = make_view();
    // Simulate: server says 150 total but only 3 loaded
    view.total = Some(150);
    assert_eq!(view.emails.len(), 3);

    let displayed_total = view.shown_total();
    assert_eq!(
        displayed_total, 150,
        "Y should be server total (150), not loaded count (3)"
    );
}

#[test]
fn status_bar_falls_back_to_loaded_count_when_no_total() {
    let (mut view, _cmd_rx) = make_view();
    view.total = None;

    let displayed_total = view.shown_total();
    assert_eq!(
        displayed_total, 3,
        "Y should fall back to loaded count when total is None"
    );
}

#[test]
fn archive_decrements_total() {
    let (mut view, mut cmd_rx) = make_view();
    view.total = Some(10);
    view.cursor = 0;

    view.handle_key(Key::Char('a'), 24, &mut cmd_rx);

    assert_eq!(view.total, Some(9), "total should decrement after archive");
    assert_eq!(view.emails.len(), 2, "email should be removed from list");
}

#[test]
fn delete_decrements_total() {
    let (mut view, mut cmd_rx) = make_view();
    view.total = Some(10);
    view.cursor = 0;

    view.handle_key(Key::Char('d'), 24, &mut cmd_rx);

    assert_eq!(view.total, Some(9), "total should decrement after delete");
    assert_eq!(view.emails.len(), 2, "email should be removed from list");
}

#[test]
fn refused_list_changes_are_undone() {
    for key in ['f', 'u', 'a', 'd'] {
        for cursor in 0..3 {
            let (mut view, mut out) = make_view();
            view.emails[1].keywords.insert("$flagged".to_string(), true);
            view.emails[1].keywords.insert("$seen".to_string(), true);
            view.cursor = cursor;
            let shown = |v: &EmailListView| {
                let emails: Vec<(String, bool, bool)> = v
                    .emails
                    .iter()
                    .map(|e| {
                        (
                            e.id.clone(),
                            e.keywords.contains_key("$flagged"),
                            e.keywords.contains_key("$seen"),
                        )
                    })
                    .collect();
                (emails, v.cursor, v.total)
            };
            let before = shown(&view);
            let op_id = view.next_write_op_id;
            let sent = out.sent.len();
            view.handle_key(Key::Char(key), 24, &mut out);
            assert_eq!(out.sent.len(), sent + 1);
            assert_ne!(shown(&view), before);
            assert!(view.on_response(
                &BackendResponse::EmailMutation {
                    op_id,
                    id: "x".to_string(),
                    action: EmailMutationAction::Move,
                    result: Err("server down".to_string()),
                },
                "now",
                &mut out,
            ));
            assert_eq!(shown(&view), before);
            assert!(view.pending_write_ops.is_empty());
            assert!(view.status_message.unwrap().ends_with("server down"));
        }
    }
}
