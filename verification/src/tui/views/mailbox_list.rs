//! The list of mailboxes.

use vstd::prelude::*;

use crate::backend::{
    BackendCommand, BackendCommandV, BackendResponse, BackendResponseV, EmailMutationAction,
    RetentionCandidate, RetentionCandidateV, RetentionExecutionResultV,
};
use crate::compose::{build_compose_draft, compose_draft};
use crate::config::{RetentionPolicyConfig, RetentionPolicyConfigV};
use crate::data::{at, no_items, result_view, Dup};
use crate::jmap::types::{Mailbox, MailboxV};
use crate::sorting::{
    equals_of, in_order, is_text_le, law_sorted, law_text_order, sort_by, sorted, text_le,
};
use crate::text::{dec, decimal, lowercase, same, to_lowercase, trim, trimmed};
use crate::tui::input::Key;
use crate::tui::screen::{
    clipped, in_bold, moved, plain, row_header, row_text, selected, status_line, title, Terminal,
    TerminalV,
};
use crate::tui::views::email_list::{blank_email_list, EmailListView};
use crate::tui::views::help::{help_view, HelpView};
use crate::tui::views::retention_preview::{preview_of, RetentionPreviewView};
use crate::tui::views::{
    clamp_cursor, clicked_row, closed_channel, count_items, cursor_back, cursor_clamped,
    cursor_down, cursor_page_down, cursor_up, hit_row, page_rows, plus_one, pop_char, rows_below,
    sent_to, shown_items, status_with, step_down, step_page_down, step_up, text2, text3,
    window_start, window_start_of, with_status, without_last, AnyView, AnyViewV, Outbox, OutboxV,
    ViewAction, ViewActionV,
};

verus! {

broadcast use vstd::seq_lib::group_seq_properties;

/// The list of mailboxes.
#[derive(Debug)]
pub struct MailboxListView {
    pub from_address: String,
    pub reply_from_address: Option<String>,
    pub browser: Option<String>,
    pub page_size: u32,
    pub mailboxes: Vec<Mailbox>,
    pub cursor: usize,
    pub loading: bool,
    pub error: Option<String>,
    pub account_names: Vec<String>,
    pub current_account: String,
    pub pending_click: bool,
    pub archive_folder: String,
    pub deleted_folder: String,
    pub retention_policies: Vec<RetentionPolicyConfig>,
    pub status_message: Option<String>,
    pub pending_retention_preview: Option<Vec<RetentionCandidate>>,
    pub create_mode: bool,
    pub create_input: String,
    pub delete_confirm_mode: bool,
    pub last_refreshed: Option<String>,
}

/// The contents of a `MailboxListView`.
pub struct MailboxListViewV {
    pub from_address: Seq<char>,
    pub reply_from_address: Option<Seq<char>>,
    pub browser: Option<Seq<char>>,
    pub page_size: u32,
    pub mailboxes: Seq<MailboxV>,
    pub cursor: usize,
    pub loading: bool,
    pub error: Option<Seq<char>>,
    pub account_names: Seq<Seq<char>>,
    pub current_account: Seq<char>,
    pub pending_click: bool,
    pub archive_folder: Seq<char>,
    pub deleted_folder: Seq<char>,
    pub retention_policies: Seq<RetentionPolicyConfigV>,
    pub status_message: Option<Seq<char>>,
    pub pending_retention_preview: Option<Seq<RetentionCandidateV>>,
    pub create_mode: bool,
    pub create_input: Seq<char>,
    pub delete_confirm_mode: bool,
    pub last_refreshed: Option<Seq<char>>,
}

impl DeepView for MailboxListView {
    type V = MailboxListViewV;

    open spec fn deep_view(&self) -> MailboxListViewV {
        MailboxListViewV {
            from_address: self.from_address@,
            reply_from_address: self.reply_from_address.deep_view(),
            browser: self.browser.deep_view(),
            page_size: self.page_size,
            mailboxes: self.mailboxes.deep_view(),
            cursor: self.cursor,
            loading: self.loading,
            error: self.error.deep_view(),
            account_names: self.account_names.deep_view(),
            current_account: self.current_account@,
            pending_click: self.pending_click,
            archive_folder: self.archive_folder@,
            deleted_folder: self.deleted_folder@,
            retention_policies: self.retention_policies.deep_view(),
            status_message: self.status_message.deep_view(),
            pending_retention_preview: self.pending_retention_preview.deep_view(),
            create_mode: self.create_mode,
            create_input: self.create_input@,
            delete_confirm_mode: self.delete_confirm_mode,
            last_refreshed: self.last_refreshed.deep_view(),
        }
    }
}

// ---------------------------------------------------------------------------
// The list
// ---------------------------------------------------------------------------

/// The place of a role among the mailboxes.
pub open spec fn role_rank(m: MailboxV) -> int {
    match m.role {
        Some(r) => if r == "inbox"@ {
            0
        } else if r == "drafts"@ {
            1
        } else if r == "sent"@ {
            2
        } else if r == "junk"@ {
            3
        } else if r == "trash"@ {
            4
        } else if r == "archive"@ {
            5
        } else {
            6
        },
        None => 7,
    }
}

fn rank(m: &Mailbox) -> (r: u32)
    ensures
        r == role_rank(m.deep_view()),
{
    match &m.role {
        Some(role) => {
            let role = role.as_str();
            if same(role, "inbox") {
                0
            } else if same(role, "drafts") {
                1
            } else if same(role, "sent") {
                2
            } else if same(role, "junk") {
                3
            } else if same(role, "trash") {
                4
            } else if same(role, "archive") {
                5
            } else {
                6
            }
        },
        None => 7,
    }
}

/// Whether a mailbox may stand before another: by role, then by name without
/// regard to case.
pub open spec fn mailbox_le(a: MailboxV, b: MailboxV) -> bool {
    if role_rank(a) != role_rank(b) {
        role_rank(a) < role_rank(b)
    } else {
        text_le(lowercase(a.name), lowercase(b.name))
    }
}

fn is_mailbox_le(a: &Mailbox, b: &Mailbox) -> (r: bool)
    ensures
        r == mailbox_le(a.deep_view(), b.deep_view()),
{
    let ra: u32 = rank(a);
    let rb: u32 = rank(b);
    if ra != rb {
        ra < rb
    } else {
        is_text_le(to_lowercase(a.name.as_str()).as_str(), to_lowercase(b.name.as_str()).as_str())
    }
}

/// The mailboxes in the order in which they are listed.
pub open spec fn listed(mailboxes: Seq<MailboxV>) -> Seq<MailboxV> {
    sorted(mailboxes, |a: MailboxV, b: MailboxV| mailbox_le(a, b))
}

fn sort_mailboxes(mailboxes: Vec<Mailbox>) -> (r: Vec<Mailbox>)
    ensures
        r.deep_view() == listed(mailboxes.deep_view()),
{
    let f = |a: &Mailbox, b: &Mailbox| -> (o: bool)
        ensures
            o == mailbox_le(a.deep_view(), b.deep_view()),
        { is_mailbox_le(a, b) };
    sort_by(mailboxes, f, Ghost(|a: MailboxV, b: MailboxV| mailbox_le(a, b)))
}

/// The listed mailboxes are the given ones, no mailbox stands before one that must
/// come first, and those that may stand either way keep their order.
pub proof fn law_listed_mailboxes_in_order(mailboxes: Seq<MailboxV>)
    ensures
        listed(mailboxes).to_multiset() == mailboxes.to_multiset(),
        in_order(listed(mailboxes), |a: MailboxV, b: MailboxV| mailbox_le(a, b)),
        ({
            let le = |a: MailboxV, b: MailboxV| mailbox_le(a, b);
            forall|m: MailboxV| #[trigger]
                equals_of(listed(mailboxes), m, le) == equals_of(mailboxes, m, le)
        }),
{
    let le = |a: MailboxV, b: MailboxV| mailbox_le(a, b);
    law_text_order();
    assert forall|a: MailboxV, b: MailboxV| #[trigger] le(a, b) || le(b, a) by {
        assert(text_le(lowercase(a.name), lowercase(b.name)) || text_le(
            lowercase(b.name),
            lowercase(a.name),
        ));
    }
    assert forall|a: MailboxV, b: MailboxV, c: MailboxV| #[trigger]
        le(a, b) && #[trigger] le(b, c) implies le(a, c) by {
        if role_rank(a) == role_rank(b) && role_rank(b) == role_rank(c) {
            assert(text_le(lowercase(a.name), lowercase(b.name)));
            assert(text_le(lowercase(b.name), lowercase(c.name)));
        }
    }
    law_sorted(mailboxes, le);
}

/// The line of a mailbox: its name, and how many messages it has.
pub open spec fn mailbox_line(m: MailboxV) -> Seq<char> {
    if m.unread_emails > 0 {
        m.name + " ("@ + decimal(m.unread_emails as nat) + "/"@ + decimal(m.total_emails as nat)
            + ")"@
    } else if m.total_emails > 0 {
        m.name + " ("@ + decimal(m.total_emails as nat) + ")"@
    } else {
        m.name
    }
}

fn format_mailbox(m: &Mailbox) -> (r: String)
    ensures
        r@ == mailbox_line(m.deep_view()),
{
    let mut s = m.name.clone();
    if m.unread_emails > 0 {
        s.append(" (");
        s.append(dec(m.unread_emails as u64).as_str());
        s.append("/");
        s.append(dec(m.total_emails as u64).as_str());
        s.append(")");
    } else if m.total_emails > 0 {
        s.append(" (");
        s.append(dec(m.total_emails as u64).as_str());
        s.append(")");
    }
    s
}

/// The first position at or after `i` of a name, or 0.
pub open spec fn account_index(names: Seq<Seq<char>>, name: Seq<char>, i: int) -> int
    decreases names.len() - i,
{
    if i >= names.len() {
        0
    } else if names[i] == name {
        i
    } else {
        account_index(names, name, i + 1)
    }
}

/// The account after the current one; nothing if there is no other.
pub open spec fn next_account(v: MailboxListViewV) -> Option<Seq<char>> {
    let n = v.account_names.len();
    if n <= 1 {
        None
    } else {
        let i = account_index(v.account_names, v.current_account, 0) + 1;
        Some(
            v.account_names[if i < n {
                i
            } else {
                0
            }],
        )
    }
}

/// The address that drafts are from.
pub open spec fn draft_from(v: MailboxListViewV) -> Seq<char> {
    match v.reply_from_address {
        Some(a) => a,
        None => v.from_address,
    }
}

/// The query for the messages of a mailbox.
pub open spec fn first_query(origin: Seq<char>, mailbox_id: Seq<char>, page_size: u32)
    -> BackendCommandV {
    BackendCommandV::QueryEmails {
        origin,
        mailbox_id,
        page_size,
        position: 0,
        search_query: None,
        received_after: None,
        received_before: None,
    }
}

/// The outbox and the action after the selected mailbox is opened.
pub open spec fn opened(v: MailboxListViewV, o: OutboxV, origin: Seq<char>) -> (
    OutboxV,
    ViewActionV,
) {
    if v.cursor < v.mailboxes.len() {
        let m = v.mailboxes[v.cursor as int];
        (
            sent_to(o, first_query(origin, m.id, v.page_size)),
            ViewActionV::Push(
                AnyViewV::Emails(
                    blank_email_list(
                        draft_from(v),
                        m.id,
                        m.name,
                        v.page_size,
                        v.mailboxes,
                        v.archive_folder,
                        v.deleted_folder,
                        v.browser,
                    ),
                ),
            ),
        )
    } else {
        (o, ViewActionV::Continue)
    }
}

/// The outbox after a refresh is asked for.
pub open spec fn mailboxes_asked(o: OutboxV, origin: Seq<char>) -> OutboxV {
    sent_to(o, BackendCommandV::FetchMailboxes { origin })
}

// ---------------------------------------------------------------------------
// Keys
// ---------------------------------------------------------------------------

/// The list after a key while a name for a new folder is typed.
pub open spec fn create_key(v: MailboxListViewV, o: OutboxV, key: Key) -> (
    MailboxListViewV,
    OutboxV,
) {
    match key {
        Key::Enter => {
            let name = trimmed(v.create_input);
            if name.len() == 0 {
                (MailboxListViewV { status_message: Some("Folder name cannot be empty"@), ..v }, o)
            } else if !o.open {
                (
                    MailboxListViewV {
                        status_message: Some("Create folder failed to send: "@ + closed_channel()),
                        ..v
                    },
                    o,
                )
            } else {
                (
                    MailboxListViewV {
                        status_message: Some("Creating folder '"@ + name + "'"@),
                        create_mode: false,
                        create_input: Seq::empty(),
                        ..v
                    },
                    sent_to(o, BackendCommandV::CreateMailbox { name }),
                )
            }
        },
        Key::Escape => (MailboxListViewV { create_mode: false, create_input: Seq::empty(), ..v }, o),
        Key::Char('q') => (
            MailboxListViewV { create_mode: false, create_input: Seq::empty(), ..v },
            o,
        ),
        Key::Backspace => (
            MailboxListViewV { create_input: without_last(v.create_input), ..v },
            o,
        ),
        Key::Char(c) => (MailboxListViewV { create_input: v.create_input.push(c), ..v }, o),
        _ => (v, o),
    }
}

/// The list after a key while it is asked whether a folder is to be deleted.
pub open spec fn delete_key(v: MailboxListViewV, o: OutboxV, key: Key) -> (
    MailboxListViewV,
    OutboxV,
) {
    if key == Key::Char('y') || key == Key::Char('Y') {
        let w = MailboxListViewV { delete_confirm_mode: false, ..v };
        if v.cursor < v.mailboxes.len() {
            let m = v.mailboxes[v.cursor as int];
            (
                MailboxListViewV {
                    status_message: Some(
                        if o.open {
                            "Deleting folder '"@ + m.name + "'"@
                        } else {
                            "Delete folder failed to send: "@ + closed_channel()
                        },
                    ),
                    ..w
                },
                sent_to(o, BackendCommandV::DeleteMailbox { id: m.id, name: m.name }),
            )
        } else {
            (w, o)
        }
    } else if key == Key::Escape || key == Key::Char('q') || key == Key::Char('n') || key
        == Key::Char('N') || key == Key::Enter {
        (MailboxListViewV { delete_confirm_mode: false, ..v }, o)
    } else {
        (v, o)
    }
}

/// Where a key moves the cursor of a list that fills a page of `page` rows; nothing
/// if it moves nothing.
pub open spec fn list_key(key: Key, cursor: usize, n: nat, page: usize) -> Option<usize> {
    match key {
        Key::Char('n') => Some(cursor_down(cursor, n)),
        Key::Char('j') => Some(cursor_down(cursor, n)),
        Key::Down => Some(cursor_down(cursor, n)),
        Key::ScrollDown => Some(cursor_down(cursor, n)),
        Key::Char('p') => Some(cursor_up(cursor)),
        Key::Char('k') => Some(cursor_up(cursor)),
        Key::Up => Some(cursor_up(cursor)),
        Key::ScrollUp => Some(cursor_up(cursor)),
        Key::PageDown => Some(cursor_page_down(cursor, page, n)),
        Key::PageUp => Some(cursor_back(cursor, page)),
        Key::Home => Some(0),
        Key::End => Some(
            if n > 0 {
                (n - 1) as usize
            } else {
                cursor
            },
        ),
        _ => None,
    }
}

/// Where a key moves the cursor of a list.
pub fn move_in_list(key: Key, cursor: usize, n: usize, page: usize) -> (r: Option<usize>)
    ensures
        r == list_key(key, cursor, n as nat, page),
{
    match key {
        Key::Char('n') => Some(step_down(cursor, n)),
        Key::Char('j') => Some(step_down(cursor, n)),
        Key::Down => Some(step_down(cursor, n)),
        Key::ScrollDown => Some(step_down(cursor, n)),
        Key::Char('p') => Some(step_up(cursor, 1)),
        Key::Char('k') => Some(step_up(cursor, 1)),
        Key::Up => Some(step_up(cursor, 1)),
        Key::ScrollUp => Some(step_up(cursor, 1)),
        Key::PageDown => Some(
            if n == 0 {
                cursor
            } else {
                step_page_down(cursor, page, n)
            },
        ),
        Key::PageUp => Some(step_up(cursor, page)),
        Key::Home => Some(0),
        Key::End => Some(
            if n > 0 {
                n - 1
            } else {
                cursor
            },
        ),
        _ => None,
    }
}

/// The list after the key that marks the selected mailbox as read.
pub open spec fn read_key(v: MailboxListViewV, o: OutboxV) -> (MailboxListViewV, OutboxV) {
    if v.cursor < v.mailboxes.len() {
        let m = v.mailboxes[v.cursor as int];
        if m.unread_emails == 0 {
            (
                MailboxListViewV {
                    status_message: Some("Folder '"@ + m.name + "' already read"@),
                    ..v
                },
                o,
            )
        } else {
            (
                MailboxListViewV {
                    status_message: Some(
                        if o.open {
                            "Marking folder '"@ + m.name + "' read..."@
                        } else {
                            "Mark folder read failed to send: "@ + closed_channel()
                        },
                    ),
                    ..v
                },
                sent_to(
                    o,
                    BackendCommandV::MarkMailboxRead { mailbox_id: m.id, mailbox_name: m.name },
                ),
            )
        }
    } else {
        (v, o)
    }
}

/// The list after a key outside the modes, the outbox, and what is to be done.
pub open spec fn normal_key(v: MailboxListViewV, o: OutboxV, key: Key, rows: u16) -> (
    MailboxListViewV,
    OutboxV,
    ViewActionV,
) {
    let page = page_rows(rows, 4);
    match list_key(key, v.cursor, v.mailboxes.len(), page) {
        Some(c) => (MailboxListViewV { cursor: c, ..v }, o, ViewActionV::Continue),
        None => match key {
            Key::Char('q') => (v, o, ViewActionV::Quit),
            Key::Enter => {
                let r = opened(v, o, "mailbox_list.open_enter"@);
                (v, r.0, r.1)
            },
            Key::Char('g') => (
                MailboxListViewV { loading: true, ..v },
                mailboxes_asked(o, "mailbox_list.key_g"@),
                ViewActionV::Continue,
            ),
            Key::Char('+') => (
                MailboxListViewV { create_mode: true, create_input: Seq::empty(), ..v },
                o,
                ViewActionV::Continue,
            ),
            Key::Char('d') => (
                if v.mailboxes.len() > 0 {
                    MailboxListViewV { delete_confirm_mode: true, ..v }
                } else {
                    v
                },
                o,
                ViewActionV::Continue,
            ),
            Key::Char('u') => {
                let r = read_key(v, o);
                (r.0, r.1, ViewActionV::Continue)
            },
            Key::Char('x') => (
                MailboxListViewV {
                    status_message: Some("Building retention preview..."@),
                    ..v
                },
                sent_to(
                    o,
                    BackendCommandV::PreviewRetentionExpiry { policies: v.retention_policies },
                ),
                ViewActionV::Continue,
            ),
            Key::Char('X') => (
                MailboxListViewV { status_message: Some("Expiring retained mail..."@), ..v },
                sent_to(
                    o,
                    BackendCommandV::ExecuteRetentionExpiry { policies: v.retention_policies },
                ),
                ViewActionV::Continue,
            ),
            Key::Char('c') => (v, o, ViewActionV::Compose(compose_draft(draft_from(v)))),
            Key::Char('a') => (
                v,
                o,
                match next_account(v) {
                    Some(name) => ViewActionV::SwitchAccount(name),
                    None => ViewActionV::Continue,
                },
            ),
            Key::Char('?') => (v, o, ViewActionV::Push(AnyViewV::Help(help_view()))),
            Key::MouseClick { row, .. } => (
                match clicked_row(row, window_start(v.cursor, page), v.mailboxes.len()) {
                    Some(c) => MailboxListViewV { cursor: c, pending_click: true, ..v },
                    None => v,
                },
                o,
                ViewActionV::Continue,
            ),
            _ => (v, o, ViewActionV::Continue),
        },
    }
}

/// The list after a key, the outbox, and what is to be done.
pub open spec fn mailbox_list_key(v: MailboxListViewV, o: OutboxV, key: Key, rows: u16) -> (
    MailboxListViewV,
    OutboxV,
    ViewActionV,
) {
    if v.create_mode {
        let r = create_key(v, o, key);
        (r.0, r.1, ViewActionV::Continue)
    } else if v.delete_confirm_mode {
        let r = delete_key(v, o, key);
        (r.0, r.1, ViewActionV::Continue)
    } else {
        normal_key(v, o, key, rows)
    }
}

/// What is to be done after what happened before: a click opens a mailbox, a
/// preview that has come is shown.
pub open spec fn mailbox_list_pending(v: MailboxListViewV, o: OutboxV) -> (
    MailboxListViewV,
    OutboxV,
    Option<ViewActionV>,
) {
    let w = MailboxListViewV { pending_click: false, ..v };
    if v.pending_click && v.cursor < v.mailboxes.len() {
        let r = opened(v, o, "mailbox_list.open_click"@);
        (w, r.0, Some(r.1))
    } else {
        match v.pending_retention_preview {
            Some(candidates) => (
                MailboxListViewV { pending_retention_preview: None, ..w },
                o,
                Some(ViewActionV::Push(AnyViewV::Retention(preview_of(candidates)))),
            ),
            None => (w, o, None),
        }
    }
}

// ---------------------------------------------------------------------------
// Responses
// ---------------------------------------------------------------------------

/// The list after a response with a message, and a refresh if one is due.
pub open spec fn told(
    v: MailboxListViewV,
    o: OutboxV,
    message: Seq<char>,
    refresh: Option<Seq<char>>,
) -> (MailboxListViewV, OutboxV, bool) {
    let w = MailboxListViewV { status_message: Some(message), ..v };
    match refresh {
        Some(origin) => (
            MailboxListViewV { loading: true, ..w },
            mailboxes_asked(o, origin),
            true,
        ),
        None => (w, o, true),
    }
}

/// The list after a refresh is asked for if something went well.
pub open spec fn refreshed_if(v: MailboxListViewV, o: OutboxV, ok: bool, origin: Seq<char>) -> (
    MailboxListViewV,
    OutboxV,
    bool,
) {
    if ok {
        (MailboxListViewV { loading: true, ..v }, mailboxes_asked(o, origin), true)
    } else {
        (v, o, false)
    }
}

/// The list after its mailboxes have come.
pub open spec fn mailboxes_come(
    v: MailboxListViewV,
    result: Result<Seq<MailboxV>, Seq<char>>,
    now: Seq<char>,
) -> MailboxListViewV {
    match result {
        Ok(ms) => MailboxListViewV {
            loading: false,
            mailboxes: listed(ms),
            error: None,
            last_refreshed: Some(now),
            cursor: cursor_clamped(v.cursor, listed(ms).len()),
            ..v
        },
        Err(e) => MailboxListViewV {
            loading: false,
            error: Some("Failed to fetch mailboxes: "@ + e),
            ..v
        },
    }
}

/// What is said after messages were let go.
pub open spec fn expired_message(r: RetentionExecutionResultV) -> Seq<char> {
    let s = "Expired "@ + decimal(r.deleted as nat) + " message(s)"@;
    if r.failed_batches.len() == 0 {
        s
    } else {
        s + ", "@ + decimal(r.failed_batches.len()) + " batch(es) failed"@
    }
}

/// The list after a response, the outbox, and whether the response was for it.
pub open spec fn mailbox_list_response(
    v: MailboxListViewV,
    o: OutboxV,
    response: BackendResponseV,
    now: Seq<char>,
) -> (MailboxListViewV, OutboxV, bool) {
    match response {
        BackendResponseV::Mailboxes(result) => (mailboxes_come(v, result, now), o, true),
        BackendResponseV::RetentionPreview { result } => match result {
            Ok(p) => told(
                MailboxListViewV { pending_retention_preview: Some(p.candidates), ..v },
                o,
                decimal(p.candidates.len()) + " message(s) eligible for expiry"@,
                None,
            ),
            Err(e) => told(v, o, "Retention preview failed: "@ + e, None),
        },
        BackendResponseV::MailboxCreated { name, result } => match result {
            Ok(_) => told(
                v,
                o,
                "Created folder '"@ + name + "'"@,
                Some("mailbox_list.mailbox_created"@),
            ),
            Err(e) => told(v, o, "Create folder '"@ + name + "' failed: "@ + e, None),
        },
        BackendResponseV::MailboxDeleted { name, result } => match result {
            Ok(_) => told(
                v,
                o,
                "Deleted folder '"@ + name + "'"@,
                Some("mailbox_list.mailbox_deleted"@),
            ),
            Err(e) => told(v, o, "Delete folder '"@ + name + "' failed: "@ + e, None),
        },
        BackendResponseV::RetentionExecuted { result } => match result {
            Ok(r) => told(v, o, expired_message(r), Some("mailbox_list.retention_executed"@)),
            Err(e) => told(v, o, "Retention expiry failed: "@ + e, None),
        },
        BackendResponseV::EmailMutation { action, result, .. } => refreshed_if(
            v,
            o,
            result is Ok && (action == EmailMutationAction::MarkRead || action
                == EmailMutationAction::MarkUnread),
            "mailbox_list.email_mutation_followup"@,
        ),
        BackendResponseV::ThreadMarkedRead { result, .. } => refreshed_if(
            v,
            o,
            result is Ok,
            "mailbox_list.thread_marked_read"@,
        ),
        BackendResponseV::MailboxMarkedRead {
            mailbox_id,
            mailbox_name,
            updated,
            result,
        } => match result {
            Ok(_) => told(
                v,
                o,
                if updated == 0 {
                    "Folder '"@ + mailbox_name + "' already read"@
                } else {
                    "Marked "@ + decimal(updated as nat) + " message(s) read in '"@ + mailbox_name
                        + "'"@
                },
                Some("mailbox_list.mailbox_marked_read:"@ + mailbox_id),
            ),
            Err(e) => told(v, o, "Mark all read failed for '"@ + mailbox_name + "': "@ + e, None),
        },
        _ => (v, o, false),
    }
}

/// The list after the time for a refresh has come, the outbox, and whether a
/// refresh was asked for.
pub open spec fn mailbox_list_sync(v: MailboxListViewV, o: OutboxV) -> (
    MailboxListViewV,
    OutboxV,
    bool,
) {
    refreshed_if(
        v,
        o,
        !v.loading && !v.create_mode && !v.delete_confirm_mode,
        "mailbox_list.periodic_sync"@,
    )
}

// ---------------------------------------------------------------------------
// The screen
// ---------------------------------------------------------------------------

/// The heading.
pub open spec fn mailbox_list_header(v: MailboxListViewV) -> Seq<char> {
    let name = if v.account_names.len() > 1 {
        "tmc - "@ + v.current_account
    } else {
        "tmc - Timmy's Mail Console"@
    };
    match v.last_refreshed {
        Some(ts) => name + " (refreshed "@ + ts + ")"@,
        None => name,
    }
}

/// The status.
pub open spec fn mailbox_list_status(v: MailboxListViewV) -> Seq<char> {
    let hint = if v.account_names.len() > 1 {
        " a:account"@
    } else {
        ""@
    };
    if v.create_mode {
        " New folder name | Enter:create Esc:cancel"@
    } else if v.delete_confirm_mode {
        " Confirm delete | y:delete n/Esc:cancel"@
    } else if v.loading {
        " Loading... | q:quit g:refresh c:compose +:new-folder d:delete-folder u:read-all x:preview-expire X:expire"@
            + hint
    } else if v.mailboxes.len() == 0 {
        " q:quit g:refresh c:compose +:new-folder x:preview-expire X:expire"@ + hint
    } else {
        " "@ + decimal(plus_one(v.cursor) as nat) + "/"@ + decimal(v.mailboxes.len())
            + " | q:quit n/p:navigate RET:open g:refresh c:compose +:new-folder d:delete-folder u:read-all x:preview-expire X:expire ?:help"@
            + hint
    }
}

/// The terminal after the row of a mailbox.
pub open spec fn mailbox_row(t: TerminalV, row: u16, m: MailboxV, on: bool) -> TerminalV {
    let a = moved(t, row, 1);
    let b = if on {
        selected(a)
    } else {
        a
    };
    let c = if m.unread_emails > 0 {
        in_bold(b)
    } else {
        b
    };
    plain(clipped(c, mailbox_line(m), t.cols))
}

/// The terminal after the first `k` rows of mailboxes from `start`.
pub open spec fn mailbox_rows(t: TerminalV, v: MailboxListViewV, start: usize, k: nat) -> TerminalV
    decreases k,
{
    if k == 0 {
        t
    } else {
        mailbox_row(
            mailbox_rows(t, v, start, (k - 1) as nat),
            (k + 2) as u16,
            v.mailboxes[start + k - 1],
            start + k - 1 == v.cursor,
        )
    }
}

/// The name that is asked about before a folder is deleted.
pub open spec fn doomed_name(v: MailboxListViewV) -> Seq<char> {
    if v.cursor < v.mailboxes.len() {
        v.mailboxes[v.cursor as int].name
    } else {
        "(unknown)"@
    }
}

/// The terminal after the part between the heading and the status.
pub open spec fn mailbox_list_body(t: TerminalV, v: MailboxListViewV) -> TerminalV {
    if v.create_mode {
        row_text(
            row_header(t, 3, "Create new folder:"@),
            4,
            "Name: "@ + v.create_input + "_"@,
        )
    } else if v.delete_confirm_mode {
        row_text(
            row_header(t, 3, "Delete folder '"@ + doomed_name(v) + "'? (y/N)"@),
            4,
            "Press y to confirm, n or Esc to cancel."@,
        )
    } else if v.loading && v.mailboxes.len() == 0 {
        row_text(t, 3, "Loading mailboxes..."@)
    } else {
        match v.error {
            Some(e) => row_text(t, 3, e),
            None => if v.mailboxes.len() == 0 {
                row_text(t, 3, "No mailboxes found."@)
            } else {
                let start = window_start(v.cursor, page_rows(t.rows, 4));
                mailbox_rows(t, v, start, shown_items(start, v.mailboxes.len(), t.rows, 4))
            },
        }
    }
}

/// The terminal after the list.
pub open spec fn mailbox_list_shown(t: TerminalV, v: MailboxListViewV) -> TerminalV {
    status_line(
        mailbox_list_body(title(t, mailbox_list_header(v)), v),
        with_status(v.status_message, mailbox_list_status(v)),
    )
}

// ---------------------------------------------------------------------------
// The view
// ---------------------------------------------------------------------------

/// The list of an account before its mailboxes have come.
pub open spec fn blank_mailbox_list(
    from_address: Seq<char>,
    reply_from_address: Option<Seq<char>>,
    browser: Option<Seq<char>>,
    page_size: u32,
    account_names: Seq<Seq<char>>,
    current_account: Seq<char>,
    archive_folder: Seq<char>,
    deleted_folder: Seq<char>,
    retention_policies: Seq<RetentionPolicyConfigV>,
) -> MailboxListViewV {
    MailboxListViewV {
        from_address,
        reply_from_address,
        browser,
        page_size,
        mailboxes: Seq::empty(),
        cursor: 0,
        loading: true,
        error: None,
        account_names,
        current_account,
        pending_click: false,
        archive_folder,
        deleted_folder,
        retention_policies,
        status_message: None,
        pending_retention_preview: None,
        create_mode: false,
        create_input: Seq::empty(),
        delete_confirm_mode: false,
        last_refreshed: None,
    }
}

impl MailboxListView {
    /// The list of an account before its mailboxes have come.
    pub fn new(
        from_address: String,
        reply_from_address: Option<String>,
        browser: Option<String>,
        page_size: u32,
        account_names: Vec<String>,
        current_account: String,
        archive_folder: String,
        deleted_folder: String,
        retention_policies: Vec<RetentionPolicyConfig>,
    ) -> (r: MailboxListView)
        ensures
            r.deep_view() == blank_mailbox_list(
                from_address@,
                reply_from_address.deep_view(),
                browser.deep_view(),
                page_size,
                account_names.deep_view(),
                current_account@,
                archive_folder@,
                deleted_folder@,
                retention_policies.deep_view(),
            ),
    {
        let mailboxes: Vec<Mailbox> = no_items();
        MailboxListView {
            from_address,
            reply_from_address,
            browser,
            page_size,
            mailboxes,
            cursor: 0,
            loading: true,
            error: None,
            account_names,
            current_account,
            pending_click: false,
            archive_folder,
            deleted_folder,
            retention_policies,
            status_message: None,
            pending_retention_preview: None,
            create_mode: false,
            create_input: String::new(),
            delete_confirm_mode: false,
            last_refreshed: None,
        }
    }

    fn request_refresh(&mut self, origin: &str, out: &mut Outbox)
        ensures
            final(self).deep_view() == (MailboxListViewV {
                loading: true,
                ..old(self).deep_view()
            }),
            final(out).deep_view() == mailboxes_asked(old(out).deep_view(), origin@),
    {
        self.loading = true;
        let _ = out.send(BackendCommand::FetchMailboxes { origin: origin.to_owned() });
    }

    fn next_account_name(&self) -> (r: Option<String>)
        ensures
            r.deep_view() == next_account(self.deep_view()),
    {
        let n: usize = self.account_names.len();
        if n <= 1 {
            return None;
        }
        let ghost names = self.account_names.deep_view();
        let ghost name = self.current_account@;
        let mut i: usize = 0;
        let mut found: usize = 0;
        let mut going = true;
        while i < n && going
            invariant
                i <= n,
                n == self.account_names@.len(),
                names == self.account_names.deep_view(),
                name == self.current_account@,
                going ==> account_index(names, name, 0) == account_index(names, name, i as int),
                going ==> found == 0,
                !going ==> account_index(names, name, 0) == found && found < n,
            decreases n - i,
        {
            if same(at(self.account_names.as_slice(), i).as_str(), self.current_account.as_str()) {
                found = i;
                going = false;
            }
            i = i + 1;
        }
        let next: usize = if found < n - 1 {
            found + 1
        } else {
            0
        };
        Some(at(self.account_names.as_slice(), next).clone())
    }

    fn reply_from(&self) -> (r: String)
        ensures
            r@ == draft_from(self.deep_view()),
    {
        match &self.reply_from_address {
            Some(a) => a.clone(),
            None => self.from_address.clone(),
        }
    }

    fn open_selected(&self, origin: &str, out: &mut Outbox) -> (r: ViewAction)
        ensures
            (final(out).deep_view(), r.deep_view()) == opened(
                self.deep_view(),
                old(out).deep_view(),
                origin@,
            ),
    {
        if self.cursor < self.mailboxes.len() {
            let m = at(self.mailboxes.as_slice(), self.cursor);
            let view = EmailListView::new(
                self.reply_from(),
                m.id.clone(),
                m.name.clone(),
                self.page_size,
                self.mailboxes.dup(),
                self.archive_folder.clone(),
                self.deleted_folder.clone(),
                self.browser.dup(),
            );
            let _ = out.send(
                BackendCommand::QueryEmails {
                    origin: origin.to_owned(),
                    mailbox_id: m.id.clone(),
                    page_size: self.page_size,
                    position: 0,
                    search_query: None,
                    received_after: None,
                    received_before: None,
                },
            );
            ViewAction::Push(AnyView::Emails(view))
        } else {
            ViewAction::Continue
        }
    }

    fn handle_create_key(&mut self, key: Key, out: &mut Outbox)
        ensures
            (final(self).deep_view(), final(out).deep_view()) == create_key(
                old(self).deep_view(),
                old(out).deep_view(),
                key,
            ),
    {
        match key {
            Key::Enter => {
                let name = trim(self.create_input.as_str());
                if name.as_str().is_empty() {
                    self.status_message = Some("Folder name cannot be empty".to_owned());
                } else if !out.send(BackendCommand::CreateMailbox { name: name.clone() }) {
                    self.status_message = Some(
                        text2("Create folder failed to send: ", "sending on a closed channel"),
                    );
                } else {
                    self.status_message = Some(text3("Creating folder '", name.as_str(), "'"));
                    self.create_mode = false;
                    self.create_input = String::new();
                }
            },
            Key::Escape => {
                self.create_mode = false;
                self.create_input = String::new();
            },
            Key::Char('q') => {
                self.create_mode = false;
                self.create_input = String::new();
            },
            Key::Backspace => {
                self.create_input = pop_char(&self.create_input);
            },
            Key::Char(c) => {
                self.create_input.push(c);
            },
            _ => {},
        }
    }

    fn handle_delete_key(&mut self, key: Key, out: &mut Outbox)
        ensures
            (final(self).deep_view(), final(out).deep_view()) == delete_key(
                old(self).deep_view(),
                old(out).deep_view(),
                key,
            ),
    {
        if key == Key::Char('y') || key == Key::Char('Y') {
            if self.cursor < self.mailboxes.len() {
                let m = at(self.mailboxes.as_slice(), self.cursor);
                let message = text3("Deleting folder '", m.name.as_str(), "'");
                if out.send(
                    BackendCommand::DeleteMailbox { id: m.id.clone(), name: m.name.clone() },
                ) {
                    self.status_message = Some(message);
                } else {
                    self.status_message = Some(
                        text2("Delete folder failed to send: ", "sending on a closed channel"),
                    );
                }
            }
            self.delete_confirm_mode = false;
        } else if key == Key::Escape || key == Key::Char('q') || key == Key::Char('n') || key
            == Key::Char('N') || key == Key::Enter {
            self.delete_confirm_mode = false;
        }
    }

    fn mark_selected_read(&mut self, out: &mut Outbox)
        ensures
            (final(self).deep_view(), final(out).deep_view()) == read_key(
                old(self).deep_view(),
                old(out).deep_view(),
            ),
    {
        if self.cursor < self.mailboxes.len() {
            let m = at(self.mailboxes.as_slice(), self.cursor);
            if m.unread_emails == 0 {
                self.status_message = Some(text3("Folder '", m.name.as_str(), "' already read"));
            } else {
                let message = text3("Marking folder '", m.name.as_str(), "' read...");
                if out.send(
                    BackendCommand::MarkMailboxRead {
                        mailbox_id: m.id.clone(),
                        mailbox_name: m.name.clone(),
                    },
                ) {
                    self.status_message = Some(message);
                } else {
                    self.status_message = Some(
                        text2("Mark folder read failed to send: ", "sending on a closed channel"),
                    );
                }
            }
        }
    }

    fn handle_normal_key(&mut self, key: Key, term_rows: u16, out: &mut Outbox) -> (r: ViewAction)
        ensures
            (final(self).deep_view(), final(out).deep_view(), r.deep_view()) == normal_key(
                old(self).deep_view(),
                old(out).deep_view(),
                key,
                term_rows,
            ),
    {
        let page: usize = rows_below(term_rows, 4);
        match move_in_list(key, self.cursor, self.mailboxes.len(), page) {
            Some(c) => {
                self.cursor = c;
                return ViewAction::Continue;
            },
            None => {},
        }
        match key {
            Key::Char('q') => ViewAction::Quit,
            Key::Enter => self.open_selected("mailbox_list.open_enter", out),
            Key::Char('g') => {
                self.request_refresh("mailbox_list.key_g", out);
                ViewAction::Continue
            },
            Key::Char('+') => {
                self.create_mode = true;
                self.create_input = String::new();
                ViewAction::Continue
            },
            Key::Char('d') => {
                if self.mailboxes.len() > 0 {
                    self.delete_confirm_mode = true;
                }
                ViewAction::Continue
            },
            Key::Char('u') => {
                self.mark_selected_read(out);
                ViewAction::Continue
            },
            Key::Char('x') => {
                let _ = out.send(
                    BackendCommand::PreviewRetentionExpiry {
                        policies: self.retention_policies.dup(),
                    },
                );
                self.status_message = Some("Building retention preview...".to_owned());
                ViewAction::Continue
            },
            Key::Char('X') => {
                let _ = out.send(
                    BackendCommand::ExecuteRetentionExpiry {
                        policies: self.retention_policies.dup(),
                    },
                );
                self.status_message = Some("Expiring retained mail...".to_owned());
                ViewAction::Continue
            },
            Key::Char('c') => ViewAction::Compose(build_compose_draft(self.reply_from().as_str())),
            Key::Char('a') => match self.next_account_name() {
                Some(next) => ViewAction::SwitchAccount(next),
                None => ViewAction::Continue,
            },
            Key::Char('?') => ViewAction::Push(AnyView::Help(HelpView::new())),
            Key::MouseClick { row, .. } => {
                match hit_row(row, window_start_of(self.cursor, page), self.mailboxes.len()) {
                    Some(c) => {
                        self.cursor = c;
                        self.pending_click = true;
                    },
                    None => {},
                }
                ViewAction::Continue
            },
            _ => ViewAction::Continue,
        }
    }

    /// Takes a key.
    pub fn handle_key(&mut self, key: Key, term_rows: u16, out: &mut Outbox) -> (r: ViewAction)
        ensures
            (final(self).deep_view(), final(out).deep_view(), r.deep_view()) == mailbox_list_key(
                old(self).deep_view(),
                old(out).deep_view(),
                key,
                term_rows,
            ),
    {
        if self.create_mode {
            self.handle_create_key(key, out);
            return ViewAction::Continue;
        }
        if self.delete_confirm_mode {
            self.handle_delete_key(key, out);
            return ViewAction::Continue;
        }
        self.handle_normal_key(key, term_rows, out)
    }

    /// Says what is to be done after what happened before.
    pub fn take_pending_action(&mut self, out: &mut Outbox) -> (r: Option<ViewAction>)
        ensures
            (final(self).deep_view(), final(out).deep_view(), r.deep_view())
                == mailbox_list_pending(old(self).deep_view(), old(out).deep_view()),
    {
        if self.pending_click {
            if self.cursor < self.mailboxes.len() {
                let action = self.open_selected("mailbox_list.open_click", out);
                self.pending_click = false;
                return Some(action);
            }
            self.pending_click = false;
        }
        match &self.pending_retention_preview {
            Some(candidates) => {
                let view = RetentionPreviewView::new(candidates.dup());
                self.pending_retention_preview = None;
                Some(ViewAction::Push(AnyView::Retention(view)))
            },
            None => None,
        }
    }

    fn tell(&mut self, message: String) -> (r: bool)
        ensures
            r,
            final(self).deep_view() == (MailboxListViewV {
                status_message: Some(message@),
                ..old(self).deep_view()
            }),
    {
        self.status_message = Some(message);
        true
    }

    fn take_mailboxes(&mut self, result: &Result<Vec<Mailbox>, String>, now: &str)
        ensures
            final(self).deep_view() == mailboxes_come(
                old(self).deep_view(),
                result_view(*result),
                now@,
            ),
    {
        self.loading = false;
        match result {
            Ok(mailboxes) => {
                self.mailboxes = sort_mailboxes(mailboxes.dup());
                self.error = None;
                self.last_refreshed = Some(now.to_owned());
                self.cursor = clamp_cursor(self.cursor, self.mailboxes.len());
            },
            Err(e) => {
                self.error = Some(text2("Failed to fetch mailboxes: ", e.as_str()));
            },
        }
    }

    /// Takes a response; says whether it was for this view.
    pub fn on_response(&mut self, response: &BackendResponse, now: &str, out: &mut Outbox) -> (r:
        bool)
        ensures
            (final(self).deep_view(), final(out).deep_view(), r) == mailbox_list_response(
                old(self).deep_view(),
                old(out).deep_view(),
                response.deep_view(),
                now@,
            ),
    {
        match response {
            BackendResponse::Mailboxes(result) => {
                self.take_mailboxes(result, now);
                true
            },
            BackendResponse::RetentionPreview { result } => match result {
                Ok(p) => {
                    self.pending_retention_preview = Some(p.candidates.dup());
                    let n = dec(p.candidates.len() as u64);
                    self.tell(text2(n.as_str(), " message(s) eligible for expiry"))
                },
                Err(e) => self.tell(text2("Retention preview failed: ", e.as_str())),
            },
            BackendResponse::MailboxCreated { name, result } => match result {
                Ok(_) => {
                    let _ = self.tell(text3("Created folder '", name.as_str(), "'"));
                    self.request_refresh("mailbox_list.mailbox_created", out);
                    true
                },
                Err(e) => {
                    let mut s = text3("Create folder '", name.as_str(), "' failed: ");
                    s.append(e.as_str());
                    self.tell(s)
                },
            },
            BackendResponse::MailboxDeleted { name, result } => match result {
                Ok(_) => {
                    let _ = self.tell(text3("Deleted folder '", name.as_str(), "'"));
                    self.request_refresh("mailbox_list.mailbox_deleted", out);
                    true
                },
                Err(e) => {
                    let mut s = text3("Delete folder '", name.as_str(), "' failed: ");
                    s.append(e.as_str());
                    self.tell(s)
                },
            },
            BackendResponse::RetentionExecuted { result } => match result {
                Ok(exec) => {
                    let mut s = text3("Expired ", dec(exec.deleted as u64).as_str(), " message(s)");
                    if exec.failed_batches.len() > 0 {
                        s.append(", ");
                        s.append(dec(exec.failed_batches.len() as u64).as_str());
                        s.append(" batch(es) failed");
                    }
                    let _ = self.tell(s);
                    self.request_refresh("mailbox_list.retention_executed", out);
                    true
                },
                Err(e) => self.tell(text2("Retention expiry failed: ", e.as_str())),
            },
            BackendResponse::EmailMutation { action, result, .. } => {
                if result.is_ok() && (*action == EmailMutationAction::MarkRead || *action
                    == EmailMutationAction::MarkUnread) {
                    self.request_refresh("mailbox_list.email_mutation_followup", out);
                    true
                } else {
                    false
                }
            },
            BackendResponse::ThreadMarkedRead { result, .. } => {
                if result.is_ok() {
                    self.request_refresh("mailbox_list.thread_marked_read", out);
                    true
                } else {
                    false
                }
            },
            BackendResponse::MailboxMarkedRead { mailbox_id, mailbox_name, updated, result } => {
                match result {
                    Ok(_) => {
                        let message = if *updated == 0 {
                            text3("Folder '", mailbox_name.as_str(), "' already read")
                        } else {
                            let mut s = text3(
                                "Marked ",
                                dec(*updated as u64).as_str(),
                                " message(s) read in '",
                            );
                            s.append(mailbox_name.as_str());
                            s.append("'");
                            s
                        };
                        let _ = self.tell(message);
                        let origin = text2(
                            "mailbox_list.mailbox_marked_read:",
                            mailbox_id.as_str(),
                        );
                        self.request_refresh(origin.as_str(), out);
                        true
                    },
                    Err(e) => {
                        let mut s = text3("Mark all read failed for '", mailbox_name.as_str(), "': ");
                        s.append(e.as_str());
                        self.tell(s)
                    },
                }
            },
            _ => false,
        }
    }

    /// Asks for a refresh, as is due from time to time; says whether it did.
    pub fn trigger_periodic_sync(&mut self, out: &mut Outbox) -> (r: bool)
        ensures
            (final(self).deep_view(), final(out).deep_view(), r) == mailbox_list_sync(
                old(self).deep_view(),
                old(out).deep_view(),
            ),
    {
        if self.loading || self.create_mode || self.delete_confirm_mode {
            return false;
        }
        self.request_refresh("mailbox_list.periodic_sync", out);
        true
    }

    fn header(&self) -> (r: String)
        ensures
            r@ == mailbox_list_header(self.deep_view()),
    {
        let mut s = if self.account_names.len() > 1 {
            text2("tmc - ", self.current_account.as_str())
        } else {
            "tmc - Timmy's Mail Console".to_owned()
        };
        match &self.last_refreshed {
            Some(ts) => {
                s.append(" (refreshed ");
                s.append(ts.as_str());
                s.append(")");
            },
            None => {},
        }
        s
    }

    fn status(&self) -> (r: String)
        ensures
            r@ == mailbox_list_status(self.deep_view()),
    {
        let hint = if self.account_names.len() > 1 {
            " a:account"
        } else {
            ""
        };
        if self.create_mode {
            " New folder name | Enter:create Esc:cancel".to_owned()
        } else if self.delete_confirm_mode {
            " Confirm delete | y:delete n/Esc:cancel".to_owned()
        } else if self.loading {
            text2(
                " Loading... | q:quit g:refresh c:compose +:new-folder d:delete-folder u:read-all x:preview-expire X:expire",
                hint,
            )
        } else if self.mailboxes.len() == 0 {
            text2(" q:quit g:refresh c:compose +:new-folder x:preview-expire X:expire", hint)
        } else {
            let mut s = " ".to_owned();
            s.append(dec(self.cursor.saturating_add(1) as u64).as_str());
            s.append("/");
            s.append(dec(self.mailboxes.len() as u64).as_str());
            s.append(
                " | q:quit n/p:navigate RET:open g:refresh c:compose +:new-folder d:delete-folder u:read-all x:preview-expire X:expire ?:help",
            );
            s.append(hint);
            s
        }
    }

    fn render_rows(&self, term: &mut Terminal)
        requires
            self.mailboxes@.len() > 0,
        ensures
            ({
                let v = self.deep_view();
                let t = old(term).deep_view();
                let start = window_start(v.cursor, page_rows(t.rows, 4));
                final(term).deep_view() == mailbox_rows(
                    t,
                    v,
                    start,
                    shown_items(start, v.mailboxes.len(), t.rows, 4),
                )
            }),
    {
        let ghost v = self.deep_view();
        let ghost t = term.deep_view();
        let start: usize = window_start_of(self.cursor, rows_below(term.rows, 4));
        let n: u16 = count_items(start, self.mailboxes.len(), term.rows, 4);
        let mut i: u16 = 0;
        while i < n
            invariant
                i <= n,
                v == self.deep_view(),
                self.mailboxes@.len() <= usize::MAX,
                n == shown_items(start, v.mailboxes.len(), t.rows, 4),
                term.deep_view() == mailbox_rows(t, v, start, i as nat),
                term.cols == t.cols,
            decreases n - i,
        {
            assert(start + i < self.mailboxes@.len());
            let at_row: usize = start + i as usize;
            let m = at(self.mailboxes.as_slice(), at_row);
            i = i + 1;
            term.move_to(i + 2, 1);
            if at_row == self.cursor {
                term.set_selection();
            }
            if m.unread_emails > 0 {
                term.set_bold_text();
            }
            let line = format_mailbox(m);
            term.write_truncated(line.as_str(), term.cols);
            term.reset_attr();
        }
    }

    /// Shows the list.
    pub fn render(&self, term: &mut Terminal)
        ensures
            final(term).deep_view() == mailbox_list_shown(old(term).deep_view(), self.deep_view()),
    {
        term.write_title(self.header().as_str());
        if self.create_mode {
            term.write_row_header(3, "Create new folder:");
            term.write_row(4, text3("Name: ", self.create_input.as_str(), "_").as_str());
        } else if self.delete_confirm_mode {
            let name = if self.cursor < self.mailboxes.len() {
                at(self.mailboxes.as_slice(), self.cursor).name.clone()
            } else {
                "(unknown)".to_owned()
            };
            let prompt = text3("Delete folder '", name.as_str(), "'? (y/N)");
            term.write_row_header(3, prompt.as_str());
            term.write_row(4, "Press y to confirm, n or Esc to cancel.");
        } else if self.loading && self.mailboxes.len() == 0 {
            term.write_row(3, "Loading mailboxes...");
        } else {
            match &self.error {
                Some(e) => {
                    term.write_row(3, e.as_str());
                },
                None => {
                    if self.mailboxes.len() == 0 {
                        term.write_row(3, "No mailboxes found.");
                    } else {
                        self.render_rows(term);
                    }
                },
            }
        }
        let status = status_with(&self.status_message, self.status());
        term.write_status(status.as_str());
    }
}

/// Whether the cursor is on a mailbox, or there is none.
pub open spec fn cursor_fits(v: MailboxListViewV) -> bool {
    v.cursor < v.mailboxes.len() || v.mailboxes.len() == 0
}

/// No key moves the cursor off the list.
pub proof fn law_key_keeps_cursor(v: MailboxListViewV, o: OutboxV, key: Key, rows: u16)
    requires
        cursor_fits(v),
        v.mailboxes.len() <= usize::MAX,
    ensures
        cursor_fits(mailbox_list_key(v, o, key, rows).0),
{
}

/// However many mailboxes come, the cursor stays on one, if there is one.
pub proof fn law_response_keeps_cursor(
    v: MailboxListViewV,
    o: OutboxV,
    response: BackendResponseV,
    now: Seq<char>,
)
    requires
        cursor_fits(v),
        response matches BackendResponseV::Mailboxes(Ok(ms)) ==> ms.len() <= usize::MAX,
    ensures
        cursor_fits(mailbox_list_response(v, o, response, now).0),
{
    match response {
        BackendResponseV::Mailboxes(Ok(ms)) => {
            law_listed_mailboxes_in_order(ms);
            listed(ms).to_multiset_ensures();
            ms.to_multiset_ensures();
        },
        _ => {},
    }
}

} // verus!
