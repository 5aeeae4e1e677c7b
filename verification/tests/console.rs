use tmc::backend::{
    BackendCommand, BackendResponse, EmailMutationAction, RetentionCandidate,
    RetentionPreviewResult, RulesDryRunResult,
};
use tmc::config::{AccountConfig, Theme};
use tmc::data::StrMap;
use tmc::jmap::types::{BodyPart, BodyValue, Email, EmailAddress, Mailbox};
use tmc::tui::console::{compile_setting, editor_command, Console, Settings};
use tmc::tui::input::Key;
use tmc::tui::screen::Terminal;
use tmc::tui::views::email_list::{format_email, EmailListView};
use tmc::tui::views::email_view::EmailView;
use tmc::tui::views::help::HelpView;
use tmc::tui::views::mailbox_list::MailboxListView;
use tmc::tui::views::retention_preview::RetentionPreviewView;
use tmc::tui::views::thread_view::ThreadView;
use tmc::tui::views::{AnyView, Outbox, ViewAction, ViewStack};

fn term(rows: u16, cols: u16) -> Terminal {
    let theme = Theme {
        bg: None,
        fg: None,
        selection_bg: None,
        selection_fg: None,
        status_bg: None,
        status_fg: None,
        header_fg: None,
        bold_fg: None,
    };
    let mut t = Terminal::new(true, theme, rows, cols);
    let _ = t.flush();
    t
}

fn mailbox(id: &str, name: &str, role: Option<&str>, unread: u32) -> Mailbox {
    Mailbox {
        id: id.to_string(),
        name: name.to_string(),
        parent_id: None,
        role: role.map(|r| r.to_string()),
        total_emails: 10,
        unread_emails: unread,
        sort_order: 0,
    }
}

fn email(id: &str, seen: bool) -> Email {
    let mut keywords = StrMap::new();
    if seen {
        keywords.insert("$seen".to_string(), true);
    }
    let mut mailbox_ids = StrMap::new();
    mailbox_ids.insert("m1".to_string(), true);
    let mut body_values = StrMap::new();
    body_values.insert(
        "1".to_string(),
        BodyValue {
            value: "first line\nsecond line\n".to_string(),
            is_encoding_problem: false,
            is_truncated: false,
        },
    );
    let part = |id: &str| BodyPart {
        part_id: id.to_string(),
        blob_id: Some(format!("blob-{}", id)),
        content_type: None,
        name: Some(format!("file-{}", id)),
        size: Some(2048),
    };
    Email {
        id: id.to_string(),
        thread_id: Some("t1".to_string()),
        from: Some(vec![EmailAddress {
            name: Some("Ann".to_string()),
            email: Some("ann@example.com".to_string()),
        }]),
        to: None,
        cc: None,
        reply_to: None,
        subject: Some(format!("Subject {}", id)),
        received_at: Some("2025-01-02T03:04:05Z".to_string()),
        sent_at: None,
        preview: None,
        text_body: Some(vec![part("1")]),
        html_body: None,
        body_values,
        keywords,
        mailbox_ids,
        message_id: None,
        references: None,
        attachments: Some(vec![part("7"), part("8")]),
        extra: StrMap::new(),
    }
}

fn mailbox_list() -> MailboxListView {
    MailboxListView::new(
        "me@example.com".to_string(),
        None,
        None,
        50,
        vec!["a".to_string(), "b".to_string()],
        "b".to_string(),
        "Archive".to_string(),
        "Trash".to_string(),
        vec![],
    )
}

fn listed() -> (MailboxListView, Outbox) {
    let mut v = mailbox_list();
    let mut out = Outbox::new();
    let response = BackendResponse::Mailboxes(Ok(vec![
        mailbox("m3", "zebra", None, 0),
        mailbox("m2", "Apple", None, 2),
        mailbox("m4", "Trash", Some("trash"), 0),
        mailbox("m1", "INBOX", Some("inbox"), 0),
    ]));
    assert!(v.on_response(&response, "12:00", &mut out));
    (v, out)
}

#[test]
fn mailboxes_are_listed_by_role_and_name() {
    let (v, _) = listed();
    let ids: Vec<&str> = v.mailboxes.iter().map(|m| m.id.as_str()).collect();
    assert_eq!(ids, vec!["m1", "m4", "m2", "m3"]);
    let mut t = term(10, 40);
    v.render(&mut t);
    let shown = t.flush();
    assert!(shown.contains("tmc - b (refreshed 12:00)"));
    assert!(shown.contains("Apple (2/10)"));
    assert!(shown.contains("zebra (10)"));
}

#[test]
fn mailboxes_of_one_name_keep_their_order() {
    let mut v = mailbox_list();
    let response = BackendResponse::Mailboxes(Ok(vec![
        mailbox("m4", "Work", None, 0),
        mailbox("m2", "work", None, 0),
        mailbox("m1", "apple", None, 0),
        mailbox("m3", "WORK", None, 0),
    ]));
    assert!(v.on_response(&response, "12:00", &mut Outbox::new()));
    let ids: Vec<&str> = v.mailboxes.iter().map(|m| m.id.as_str()).collect();
    assert_eq!(ids, vec!["m1", "m4", "m2", "m3"]);
}

#[test]
fn a_mailbox_is_opened() {
    let (mut v, mut out) = listed();
    v.handle_key(Key::Down, 24, &mut out);
    match v.handle_key(Key::Enter, 24, &mut out) {
        ViewAction::Push(AnyView::Emails(w)) => {
            assert_eq!(w.mailbox_id, "m4");
            assert_eq!(w.reply_from_address, "me@example.com");
        }
        _ => panic!("expected a list of messages"),
    }
    assert!(matches!(
        out.sent.last(),
        Some(BackendCommand::QueryEmails { mailbox_id, page_size: 50, position: 0, .. })
            if mailbox_id == "m4"
    ));
}

#[test]
fn folders_are_created_and_deleted() {
    let (mut v, mut out) = listed();
    v.handle_key(Key::Char('+'), 24, &mut out);
    v.handle_key(Key::Enter, 24, &mut out);
    assert_eq!(v.status_message.as_deref(), Some("Folder name cannot be empty"));
    for c in "newx".chars() {
        v.handle_key(Key::Char(c), 24, &mut out);
    }
    v.handle_key(Key::Backspace, 24, &mut out);
    v.handle_key(Key::Enter, 24, &mut out);
    assert!(matches!(
        out.sent.last(),
        Some(BackendCommand::CreateMailbox { name }) if name == "new"
    ));
    assert!(!v.create_mode);
    v.handle_key(Key::Char('d'), 24, &mut out);
    v.handle_key(Key::Char('n'), 24, &mut out);
    assert!(!v.delete_confirm_mode);
    v.handle_key(Key::Char('d'), 24, &mut out);
    v.handle_key(Key::Char('y'), 24, &mut out);
    assert!(matches!(
        out.sent.last(),
        Some(BackendCommand::DeleteMailbox { id, .. }) if id == "m1"
    ));
    out.open = false;
    v.handle_key(Key::Char('d'), 24, &mut out);
    v.handle_key(Key::Char('Y'), 24, &mut out);
    assert_eq!(
        v.status_message.as_deref(),
        Some("Delete folder failed to send: sending on a closed channel")
    );
}

#[test]
fn accounts_take_turns() {
    let (mut v, mut out) = listed();
    match v.handle_key(Key::Char('a'), 24, &mut out) {
        ViewAction::SwitchAccount(name) => assert_eq!(name, "a"),
        _ => panic!("expected another account"),
    }
}

#[test]
fn the_cursor_stays_on_the_list() {
    let (mut v, mut out) = listed();
    for key in [
        Key::Up,
        Key::PageUp,
        Key::End,
        Key::Down,
        Key::PageDown,
        Key::MouseClick { row: 90, col: 1 },
        Key::ScrollDown,
        Key::Home,
        Key::MouseClick { row: 4, col: 1 },
    ] {
        v.handle_key(key, 24, &mut out);
        assert!(v.cursor < v.mailboxes.len());
    }
    assert_eq!(v.cursor, 1);
    assert!(matches!(
        v.take_pending_action(&mut out),
        Some(ViewAction::Push(AnyView::Emails(_)))
    ));
    v.cursor = 3;
    let one = BackendResponse::Mailboxes(Ok(vec![mailbox("m1", "INBOX", None, 0)]));
    v.on_response(&one, "now", &mut out);
    assert_eq!(v.cursor, 0);
}

#[test]
fn previews_are_shown() {
    let (mut v, mut out) = listed();
    let candidate = RetentionCandidate {
        id: "e1".to_string(),
        mailbox: "Trash".to_string(),
        policy: "old".to_string(),
        received_at: "2024-01-01".to_string(),
        from: "a@b".to_string(),
        subject: "s".to_string(),
    };
    let response = BackendResponse::RetentionPreview {
        result: Ok(RetentionPreviewResult {
            candidates: vec![candidate],
        }),
    };
    assert!(v.on_response(&response, "now", &mut out));
    assert_eq!(
        v.status_message.as_deref(),
        Some("1 message(s) eligible for expiry")
    );
    match v.take_pending_action(&mut out) {
        Some(ViewAction::Push(AnyView::Retention(p))) => {
            assert_eq!(p.lines[0], "Retention expiry preview (1 messages)");
            assert_eq!(p.lines[2], "[old] 2024-01-01 | Trash | a@b | s");
        }
        _ => panic!("expected a preview"),
    }
    assert_eq!(
        RetentionPreviewView::new(vec![]).lines[2],
        "No messages would be expired by current policies."
    );
}

fn message_list() -> (EmailListView, Outbox) {
    let mut v = EmailListView::new(
        "me@example.com".to_string(),
        "m1".to_string(),
        "INBOX".to_string(),
        2,
        vec![
            mailbox("m1", "INBOX", Some("inbox"), 0),
            mailbox("m2", "Archive", Some("archive"), 0),
            mailbox("m3", "Trash", Some("trash"), 0),
        ],
        "Archive".to_string(),
        "Trash".to_string(),
        None,
    );
    let mut out = Outbox::new();
    let response = BackendResponse::Emails {
        mailbox_id: "m1".to_string(),
        emails: Ok(vec![email("e1", false), email("e2", true)]),
        total: Some(4),
        position: 0,
        loaded: 2,
        thread_counts: StrMap::new(),
    };
    assert!(v.on_response(&response, "12:00", &mut out));
    (v, out)
}

#[test]
fn refused_changes_are_undone() {
    let (mut v, mut out) = message_list();
    v.handle_key(Key::Char('f'), 24, &mut out);
    assert!(v.emails[0].keywords.contains_key("$flagged"));
    let refused = |op_id: u64, action: EmailMutationAction| BackendResponse::EmailMutation {
        op_id,
        id: "e1".to_string(),
        action,
        result: Err("no".to_string()),
    };
    v.on_response(&refused(1, EmailMutationAction::SetFlagged(true)), "now", &mut out);
    assert!(!v.emails[0].keywords.contains_key("$flagged"));
    assert_eq!(v.status_message.as_deref(), Some("Flag update failed: no"));
    v.handle_key(Key::Char('a'), 24, &mut out);
    assert_eq!(v.emails.len(), 1);
    assert_eq!(v.total, Some(3));
    v.on_response(&refused(2, EmailMutationAction::Move), "now", &mut out);
    let ids: Vec<&str> = v.emails.iter().map(|e| e.id.as_str()).collect();
    assert_eq!(ids, vec!["e1", "e2"]);
    assert_eq!((v.total, v.cursor), (Some(4), 0));
    assert!(v.pending_write_ops.is_empty());
}

#[test]
fn unsent_changes_are_undone() {
    let (mut v, mut out) = message_list();
    out.open = false;
    v.handle_key(Key::Char('d'), 24, &mut out);
    assert_eq!(v.emails.len(), 2);
    assert_eq!(
        v.status_message.as_deref(),
        Some("Delete failed: sending on a closed channel")
    );
    v.handle_key(Key::Char('u'), 24, &mut out);
    assert!(!v.emails[0].keywords.contains_key("$seen"));
    assert!(out.sent.is_empty());
}

#[test]
fn more_messages_are_loaded_without_doubles() {
    let (mut v, mut out) = message_list();
    v.handle_key(Key::End, 24, &mut out);
    assert!(v.loading_more);
    assert!(matches!(
        out.sent.last(),
        Some(BackendCommand::QueryEmails { position: 2, .. })
    ));
    let response = BackendResponse::Emails {
        mailbox_id: "m1".to_string(),
        emails: Ok(vec![email("e2", true), email("e3", true)]),
        total: Some(4),
        position: 2,
        loaded: 2,
        thread_counts: StrMap::new(),
    };
    v.on_response(&response, "now", &mut out);
    let ids: Vec<&str> = v.emails.iter().map(|e| e.id.as_str()).collect();
    assert_eq!(ids, vec!["e1", "e2", "e3"]);
    assert_eq!(v.next_query_position, 4);
}

#[test]
fn searches_are_typed_and_cleared() {
    let (mut v, mut out) = message_list();
    v.handle_key(Key::Char('s'), 24, &mut out);
    v.handle_key(Key::Char('c'), 24, &mut out);
    v.handle_key(Key::Enter, 24, &mut out);
    assert!(matches!(
        out.sent.last(),
        Some(BackendCommand::QueryEmails { search_query: Some(q), .. }) if q == "c"
    ));
    v.loading = false;
    assert!(v.status().contains("Esc:clear-search"));
    v.handle_key(Key::Escape, 24, &mut out);
    assert!(v.active_search.is_none());
    assert!(!v.trigger_periodic_sync(&mut out));
}

#[test]
fn threads_are_listed() {
    let (mut v, mut out) = message_list();
    v.thread_counts.insert("t1".to_string(), (1, 3));
    for (key, cross) in [
        (Key::Char('t'), false),
        (Key::AltEnter, false),
        (Key::Char('T'), true),
    ] {
        match v.handle_key(key, 24, &mut out) {
            ViewAction::Push(AnyView::Thread(t)) => {
                assert_eq!(t.filter_mailbox_id.is_none(), cross)
            }
            _ => panic!("expected a thread"),
        }
    }
    match v.handle_key(Key::Enter, 24, &mut out) {
        ViewAction::Push(AnyView::Email(w)) => assert_eq!(w.thread_id.as_deref(), Some("t1")),
        _ => panic!("expected a view"),
    }
    assert_eq!(
        format_email(&email("e1", false), 80, Some((1, 3))),
        " N [2/3]   2025-01-02 Ann                  Subject e1"
    );
}

#[test]
fn a_single_message_is_opened_and_read() {
    let (mut v, mut out) = message_list();
    match v.handle_key(Key::Enter, 24, &mut out) {
        ViewAction::Push(AnyView::Email(w)) => assert_eq!(w.email_id, "e1"),
        _ => panic!("expected a view"),
    }
    assert!(v.emails[0].keywords.contains_key("$seen"));
    let n = out.sent.len();
    assert!(matches!(&out.sent[n - 2], BackendCommand::GetEmail { id } if id == "e1"));
    assert!(matches!(&out.sent[n - 1], BackendCommand::MarkEmailRead { op_id: 1, .. }));
}

#[test]
fn the_rules_are_tried() {
    let (mut v, mut out) = message_list();
    v.handle_key(Key::Char('e'), 24, &mut out);
    let response = BackendResponse::RulesDryRun {
        mailbox_id: "m1".to_string(),
        mailbox_name: "INBOX".to_string(),
        result: Ok(RulesDryRunResult {
            scanned: 5,
            matched_rules: 2,
            actions: 3,
            entries: vec![],
        }),
    };
    v.on_response(&response, "now", &mut out);
    assert_eq!(
        v.status_message.as_deref(),
        Some("Rules dry-run in 'INBOX': scanned 5, matched 2, actions 3")
    );
    assert!(matches!(
        v.take_pending_action(&mut out),
        Some(ViewAction::ShowRules { mailbox_name, .. }) if mailbox_name == "INBOX"
    ));
}

fn message_view() -> (EmailView, Outbox) {
    let mut v = EmailView::new(
        "me@example.com".to_string(),
        "e1".to_string(),
        false,
        vec![mailbox("m2", "Archive", Some("archive"), 0)],
        "Archive".to_string(),
        "Trash".to_string(),
    );
    let mut out = Outbox::new();
    let response = BackendResponse::EmailBody {
        id: "e1".to_string(),
        result: Ok(email("e1", true)),
    };
    assert!(v.on_response(&response, &mut out));
    (v, out)
}

#[test]
fn a_message_is_shown() {
    let (v, _) = message_view();
    assert_eq!(
        v.lines,
        vec![
            "From: Ann <ann@example.com>",
            "Date: 2025-01-02T03:04:05Z",
            "Subject: Subject e1",
            "",
            "Attachments (2)",
            "  [1] file-7 (application/octet-stream, 2.0 KB)",
            "  [2] file-8 (application/octet-stream, 2.0 KB)",
            "  Press 'A' then 1-9 to download/open",
            "",
            "first line",
            "second line",
        ]
    );
    assert_eq!(v.lines.len(), v.line_kinds.len());
    let mut t = term(6, 30);
    v.render(&mut t);
    let shown = t.flush();
    assert!(shown.contains("Attachments (2)"));
    assert!(!shown.contains("file-7"));
    assert!(!v.wants_mouse());
}

#[test]
fn attachments_are_picked() {
    let (mut v, mut out) = message_view();
    v.handle_key(Key::Char('A'), 24, &mut out);
    assert!(v.attachment_picking);
    v.handle_key(Key::Char('2'), 24, &mut out);
    assert!(matches!(
        out.sent.last(),
        Some(BackendCommand::DownloadAttachment { blob_id, .. }) if blob_id == "blob-8"
    ));
    v.handle_key(Key::Char('A'), 24, &mut out);
    v.handle_key(Key::Char('9'), 24, &mut out);
    assert_eq!(v.status_message.as_deref(), Some("Invalid attachment number"));
    let saved = BackendResponse::AttachmentDownloaded {
        name: "file-8".to_string(),
        result: Ok("/tmp/file-8".to_string()),
    };
    v.on_response(&saved, &mut out);
    assert_eq!(v.status_message.as_deref(), Some("Saved: /tmp/file-8"));
    assert_eq!(
        v.take_open_request(),
        Some(("file-8".to_string(), "/tmp/file-8".to_string()))
    );
    assert_eq!(v.take_open_request(), None);
    v.open_failed("file-8", "no opener");
    assert_eq!(
        v.status_message.as_deref(),
        Some("Saved file-8 (could not open: no opener)")
    );
}

#[test]
fn raw_headers_are_fetched_once() {
    let (mut v, mut out) = message_view();
    v.handle_key(Key::Char('v'), 24, &mut out);
    assert!(matches!(
        out.sent.last(),
        Some(BackendCommand::GetEmailRawHeaders { id }) if id == "e1"
    ));
    let n = out.sent.len();
    let headers = BackendResponse::EmailRawHeaders {
        id: "e1".to_string(),
        result: Ok("X-One: 1\nX-Two: 2".to_string()),
    };
    v.on_response(&headers, &mut out);
    assert_eq!(v.lines[1], "X-Two: 2");
    v.handle_key(Key::Char('v'), 24, &mut out);
    assert_eq!(v.lines[0], "From: Ann <ann@example.com>");
    v.handle_key(Key::Char('v'), 24, &mut out);
    assert_eq!(v.lines[0], "X-One: 1");
    assert_eq!(out.sent.len(), n);
}

#[test]
fn a_message_is_moved_or_kept() {
    let (mut v, mut out) = message_view();
    assert!(matches!(
        v.handle_key(Key::Char('d'), 24, &mut out),
        ViewAction::Continue
    ));
    assert_eq!(
        v.status_message.as_deref(),
        Some("Delete failed: could not resolve folder 'Trash'")
    );
    v.handle_key(Key::Char('D'), 24, &mut out);
    assert_eq!(
        v.status_message.as_deref(),
        Some("Expire is only available in the deleted folder")
    );
    v.handle_key(Key::Char('m'), 24, &mut out);
    assert!(v.move_mode);
    assert!(matches!(
        v.handle_key(Key::Enter, 24, &mut out),
        ViewAction::Pop
    ));
    assert!(matches!(
        out.sent.last(),
        Some(BackendCommand::MoveEmail { to_mailbox_id, .. }) if to_mailbox_id == "m2"
    ));
}

#[test]
fn replies_wait_for_their_data() {
    let (mut v, mut out) = message_view();
    v.handle_key(Key::Char('r'), 24, &mut out);
    assert!(v.take_pending_action().is_none());
    let data = BackendResponse::EmailForReply {
        id: "e1".to_string(),
        result: Ok(email("e1", true)),
    };
    v.on_response(&data, &mut out);
    match v.take_pending_action() {
        Some(ViewAction::Compose(d)) => assert!(d.contains("Subject: Re: Subject e1")),
        _ => panic!("expected a draft"),
    }
    v.handle_key(Key::Char('F'), 24, &mut out);
    v.on_response(&data, &mut out);
    match v.take_pending_action() {
        Some(ViewAction::Compose(d)) => assert!(d.contains("Subject: Fwd: Subject e1")),
        _ => panic!("expected a draft"),
    }
}

#[test]
fn a_thread_shows_the_messages_of_its_mailbox() {
    let mut out = Outbox::new();
    let mut v = ThreadView::new(
        "me@example.com".to_string(),
        "t1".to_string(),
        "Subject".to_string(),
        vec![mailbox("m1", "INBOX", Some("inbox"), 0)],
        "Archive".to_string(),
        "Trash".to_string(),
        true,
        Some("m1".to_string()),
        &mut out,
    );
    assert!(matches!(
        out.sent.last(),
        Some(BackendCommand::QueryThreadEmails { thread_id }) if thread_id == "t1"
    ));
    let mut other = email("e2", true);
    other.mailbox_ids = StrMap::new();
    let response = BackendResponse::ThreadEmails {
        thread_id: "t1".to_string(),
        emails: Ok(vec![email("e1", true), other]),
    };
    assert!(v.on_response(&response, &mut out));
    assert_eq!(v.emails.len(), 1);
    let mut t = term(10, 60);
    v.render(&mut t);
    assert!(t.flush().contains("Thread: Subject (1 messages)"));
    v.handle_key(Key::Char('D'), 24, &mut out);
    assert!(matches!(
        out.sent.last(),
        Some(BackendCommand::DestroyEmail { id, .. }) if id == "e1"
    ));
    assert!(v.emails.is_empty());
}

#[test]
fn the_help_is_a_pager() {
    let mut v = HelpView::new();
    assert_eq!(v.lines[0], "tmc - Timmy's Mail Console");
    assert!(v.lines.contains(&"  Alt-Enter   Open thread list view".to_string()));
    v.handle_key(Key::End, 24);
    assert_eq!(v.scroll, v.lines.len() - 1);
    v.handle_key(Key::Down, 24);
    v.handle_key(Key::PageDown, 24);
    assert_eq!(v.scroll, v.lines.len() - 1);
    assert!(matches!(v.handle_key(Key::Char('q'), 24), ViewAction::Pop));
}

#[test]
fn views_are_stacked() {
    let mut s = ViewStack::new(AnyView::Mailboxes(mailbox_list()));
    assert!(!s.pop());
    s.push(AnyView::Help(HelpView::new()));
    let mut out = Outbox::new();
    let response = BackendResponse::Mailboxes(Ok(vec![]));
    // The list below takes the response, but only the top view is shown.
    assert!(!s.handle_response(&response, "now", &mut out));
    assert!(s.pop());
    assert!(s.handle_response(&response, "now", &mut out));
    assert_eq!(s.views.len(), 1);
}

fn settings() -> Settings {
    let account = |name: &str| AccountConfig {
        name: name.to_string(),
        well_known_url: "u".to_string(),
        username: format!("{}@example.com", name),
        password_command: "p".to_string(),
    };
    Settings {
        accounts: vec![account("a"), account("b")],
        page_size: 50,
        browser: None,
        archive_folder: "Archive".to_string(),
        deleted_folder: "Trash".to_string(),
        reply_from: None,
        retention_policies: vec![],
    }
}

#[test]
fn the_console_ends_with_a_shutdown() {
    let mut c = Console::new(settings(), 0);
    assert!(matches!(
        &c.out.sent[0],
        BackendCommand::FetchMailboxes { origin } if origin == "startup"
    ));
    let e = c.on_key(Key::Char('?'), 24);
    assert!(e.render && !e.quit);
    assert_eq!(c.stack.views.len(), 2);
    c.on_key(Key::Char('q'), 24);
    assert_eq!(c.stack.views.len(), 1);
    let e = c.on_key(Key::Char('q'), 24);
    assert!(e.quit);
    assert!(matches!(c.out.sent.last(), Some(BackendCommand::Shutdown)));
}

#[test]
fn the_console_switches_accounts() {
    let mut c = Console::new(settings(), 0);
    let e = c.on_key(Key::Char('a'), 24);
    assert_eq!(e.switch_to, Some(1));
    assert!(matches!(c.out.sent.last(), Some(BackendCommand::Shutdown)));
    let c = c.switched(1);
    match &c.stack.views[0] {
        AnyView::Mailboxes(v) => {
            assert_eq!(v.current_account, "b");
            assert_eq!(v.from_address, "b@example.com");
        }
        _ => panic!("expected mailboxes"),
    }
    assert!(matches!(
        &c.out.sent[0],
        BackendCommand::FetchMailboxes { origin } if origin == "switch_account"
    ));
}

#[test]
fn the_console_does_what_is_pending() {
    let mut c = Console::new(settings(), 0);
    let response = BackendResponse::Mailboxes(Ok(vec![mailbox("m1", "INBOX", None, 0)]));
    assert!(c.on_response(&response, "now").render);
    assert!(c.on_key(Key::MouseClick { row: 3, col: 1 }, 24).render);
    assert_eq!(c.stack.views.len(), 1);
    assert!(c.on_idle().render);
    assert_eq!(c.stack.views.len(), 2);
    assert!(!c.on_idle().render);
    let e = c.on_key(Key::Char('c'), 24);
    assert!(e.edit.unwrap().starts_with("From: a@example.com"));
    let mut t = term(10, 40);
    c.show(&mut t);
    assert!(t.flush().contains("Loading emails..."));
    assert!(!c.on_timer().render);
}

#[test]
fn settings_are_compiled() {
    assert!(compile_setting("mail.my_email_regex", "^a$").is_ok());
    let e = compile_setting("mail.my_email_regex", "(").unwrap_err();
    assert!(e.starts_with("invalid mail.my_email_regex '(': "));
    assert_eq!(editor_command(None, None), "vi");
    assert_eq!(editor_command(None, Some("ed".to_string())), "ed");
    assert_eq!(
        editor_command(Some("nvim".to_string()), Some("ed".to_string())),
        "nvim"
    );
}
