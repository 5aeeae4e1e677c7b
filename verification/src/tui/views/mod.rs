//! The views of the console, one on top of the other.

pub mod email_list;
pub mod email_view;
pub mod help;
pub mod mailbox_list;
pub mod retention_preview;
pub mod thread_view;

use vstd::prelude::*;

use crate::backend::{
    BackendCommand, BackendCommandV, BackendResponse, BackendResponseV, EmailMutationAction,
    RulesDryRunResult, RulesDryRunResultV,
};
use crate::cache::with_keyword;
use crate::compose::{byte_prefix, take_bytes};
use crate::data::{
    at, lemma_lookup_with_entry, lemma_lookup_without_key, lookup, no_items, put, Dup,
};
use crate::jmap::types::{Email, EmailV};
use crate::text::same;
use crate::tui::input::Key;
use crate::tui::screen::{Terminal, TerminalV};
use crate::tui::views::email_list::{
    email_list_key, email_list_pending, email_list_response, email_list_shown, email_list_sync,
    EmailListView, EmailListViewV,
};
use crate::tui::views::email_view::{
    email_view_key, email_view_response, email_view_shown, EmailView, EmailViewV,
};
use crate::tui::views::help::{help_key, help_shown, HelpView, HelpViewV};
use crate::tui::views::mailbox_list::{
    mailbox_list_key, mailbox_list_pending, mailbox_list_response, mailbox_list_shown,
    mailbox_list_sync, MailboxListView, MailboxListViewV,
};
use crate::tui::views::retention_preview::{
    preview_key, preview_shown, RetentionPreviewView, RetentionPreviewViewV,
};
use crate::tui::views::thread_view::{
    thread_view_key, thread_view_pending, thread_view_response, thread_view_shown, ThreadView,
    ThreadViewV,
};

verus! {

broadcast use vstd::seq_lib::group_seq_properties;

/// Where views put the commands that they send. Once it is closed nobody takes
/// them any more.
#[derive(Debug)]
pub struct Outbox {
    pub open: bool,
    pub sent: Vec<BackendCommand>,
}

/// The contents of an `Outbox`.
pub struct OutboxV {
    pub open: bool,
    pub sent: Seq<BackendCommandV>,
}

impl DeepView for Outbox {
    type V = OutboxV;

    open spec fn deep_view(&self) -> OutboxV {
        OutboxV {
            open: self.open,
            sent: self.sent.deep_view(),
        }
    }
}

/// A change that is shown although its outcome is not known, with what undoes
/// it.
#[derive(Debug)]
pub enum PendingWriteOp {
    Flag { email_id: String, old_flagged: bool },
    Seen { email_id: String, old_seen: bool },
    Move { email: Email, from_index: usize },
}

/// The contents of a `PendingWriteOp`.
pub enum PendingWriteOpV {
    Flag { email_id: Seq<char>, old_flagged: bool },
    Seen { email_id: Seq<char>, old_seen: bool },
    Move { email: EmailV, from_index: usize },
}

impl DeepView for PendingWriteOp {
    type V = PendingWriteOpV;

    open spec fn deep_view(&self) -> PendingWriteOpV {
        match self {
            PendingWriteOp::Flag { email_id, old_flagged } => PendingWriteOpV::Flag {
                email_id: email_id@,
                old_flagged: *old_flagged,
            },
            PendingWriteOp::Seen { email_id, old_seen } => PendingWriteOpV::Seen {
                email_id: email_id@,
                old_seen: *old_seen,
            },
            PendingWriteOp::Move { email, from_index } => PendingWriteOpV::Move {
                email: email.deep_view(),
                from_index: *from_index,
            },
        }
    }
}

impl Dup for PendingWriteOp {
    fn dup(&self) -> (r: PendingWriteOp) {
        match self {
            PendingWriteOp::Flag { email_id, old_flagged } => PendingWriteOp::Flag {
                email_id: email_id.dup(),
                old_flagged: *old_flagged,
            },
            PendingWriteOp::Seen { email_id, old_seen } => PendingWriteOp::Seen {
                email_id: email_id.dup(),
                old_seen: *old_seen,
            },
            PendingWriteOp::Move { email, from_index } => PendingWriteOp::Move {
                email: email.dup(),
                from_index: *from_index,
            },
        }
    }
}

/// A view.
#[derive(Debug)]
pub enum AnyView {
    Mailboxes(MailboxListView),
    Emails(EmailListView),
    Email(EmailView),
    Thread(ThreadView),
    Help(HelpView),
    Retention(RetentionPreviewView),
}

/// The contents of an `AnyView`.
pub enum AnyViewV {
    Mailboxes(MailboxListViewV),
    Emails(EmailListViewV),
    Email(EmailViewV),
    Thread(ThreadViewV),
    Help(HelpViewV),
    Retention(RetentionPreviewViewV),
}

impl DeepView for AnyView {
    type V = AnyViewV;

    open spec fn deep_view(&self) -> AnyViewV {
        match self {
            AnyView::Mailboxes(a0) => AnyViewV::Mailboxes(a0.deep_view()),
            AnyView::Emails(a0) => AnyViewV::Emails(a0.deep_view()),
            AnyView::Email(a0) => AnyViewV::Email(a0.deep_view()),
            AnyView::Thread(a0) => AnyViewV::Thread(a0.deep_view()),
            AnyView::Help(a0) => AnyViewV::Help(a0.deep_view()),
            AnyView::Retention(a0) => AnyViewV::Retention(a0.deep_view()),
        }
    }
}

/// Views on top of each other, of which the top one is shown.
#[derive(Debug)]
pub struct ViewStack {
    pub views: Vec<AnyView>,
}

/// The contents of a `ViewStack`.
pub struct ViewStackV {
    pub views: Seq<AnyViewV>,
}

impl DeepView for ViewStack {
    type V = ViewStackV;

    open spec fn deep_view(&self) -> ViewStackV {
        ViewStackV {
            views: self.views.deep_view(),
        }
    }
}

/// What is to be done after a key.
#[derive(Debug)]
pub enum ViewAction {
    Continue,
    Push(AnyView),
    ShowRules { mailbox_name: String, preview: RulesDryRunResult },
    Pop,
    Quit,
    Compose(String),
    SwitchAccount(String),
}

/// The contents of a `ViewAction`.
pub enum ViewActionV {
    Continue,
    Push(AnyViewV),
    ShowRules { mailbox_name: Seq<char>, preview: RulesDryRunResultV },
    Pop,
    Quit,
    Compose(Seq<char>),
    SwitchAccount(Seq<char>),
}

impl DeepView for ViewAction {
    type V = ViewActionV;

    open spec fn deep_view(&self) -> ViewActionV {
        match self {
            ViewAction::Continue => ViewActionV::Continue,
            ViewAction::Push(a0) => ViewActionV::Push(a0.deep_view()),
            ViewAction::ShowRules { mailbox_name, preview } => ViewActionV::ShowRules {
                mailbox_name: mailbox_name@,
                preview: preview.deep_view(),
            },
            ViewAction::Pop => ViewActionV::Pop,
            ViewAction::Quit => ViewActionV::Quit,
            ViewAction::Compose(a0) => ViewActionV::Compose(a0@),
            ViewAction::SwitchAccount(a0) => ViewActionV::SwitchAccount(a0@),
        }
    }
}

// ---------------------------------------------------------------------------
// Sending
// ---------------------------------------------------------------------------

/// What is said when nobody takes commands any more.
pub open spec fn closed_channel() -> Seq<char> {
    "sending on a closed channel"@
}

/// The outbox after a command is sent.
pub open spec fn sent_to(o: OutboxV, cmd: BackendCommandV) -> OutboxV {
    if o.open {
        OutboxV { sent: o.sent.push(cmd), ..o }
    } else {
        o
    }
}

impl Outbox {
    /// An open outbox without commands.
    pub fn new() -> (r: Outbox)
        ensures
            r.deep_view() == (OutboxV { open: true, sent: Seq::empty() }),
    {
        let sent: Vec<BackendCommand> = no_items();
        Outbox { open: true, sent }
    }

    /// Sends a command; says whether somebody takes it.
    pub fn send(&mut self, cmd: BackendCommand) -> (r: bool)
        ensures
            final(self).deep_view() == sent_to(old(self).deep_view(), cmd.deep_view()),
            r == old(self).deep_view().open,
    {
        if self.open {
            put(&mut self.sent, cmd);
        }
        self.open
    }
}

// ---------------------------------------------------------------------------
// Texts
// ---------------------------------------------------------------------------

/// Two texts one after the other.
pub fn text2(a: &str, b: &str) -> (r: String)
    ensures
        r@ == a@ + b@,
{
    let mut s = a.to_owned();
    s.append(b);
    s
}

/// Three texts one after the other.
pub fn text3(a: &str, b: &str, c: &str) -> (r: String)
    ensures
        r@ == a@ + b@ + c@,
{
    let mut s = a.to_owned();
    s.append(b);
    s.append(c);
    s
}

/// A message about something that failed.
pub open spec fn with_error(what: Seq<char>, e: Seq<char>) -> Seq<char> {
    what + " failed: "@ + e
}

/// A message about something that failed.
pub fn failure(what: &str, e: &str) -> (r: String)
    ensures
        r@ == with_error(what@, e@),
{
    text3(what, " failed: ", e)
}

/// The status line with the message before it, if there is one.
pub open spec fn with_status(message: Option<Seq<char>>, status: Seq<char>) -> Seq<char> {
    match message {
        Some(m) => m + " | "@ + status,
        None => status,
    }
}

/// The status line with the message before it, if there is one.
pub fn status_with(message: &Option<String>, status: String) -> (r: String)
    ensures
        r@ == with_status(message.deep_view(), status@),
{
    match message {
        Some(m) => text3(m.as_str(), " | ", status.as_str()),
        None => status,
    }
}

/// A text without its last character.
pub open spec fn without_last(s: Seq<char>) -> Seq<char> {
    if s.len() > 0 {
        s.drop_last()
    } else {
        s
    }
}

/// Takes the last character off a text.
pub fn pop_char(s: &String) -> (r: String)
    ensures
        r@ == without_last(s@),
{
    let v = crate::text::to_chars(s.as_str());
    if v.len() > 0 {
        assert(v@.subrange(0, v@.len() - 1) =~= s@.drop_last());
        crate::text::slice_text(&v, 0, v.len() - 1)
    } else {
        s.clone()
    }
}

// ---------------------------------------------------------------------------
// Cursors
// ---------------------------------------------------------------------------

/// A number raised by one, but not above its bound.
pub open spec fn plus_one(n: usize) -> usize {
    if n < usize::MAX {
        (n + 1) as usize
    } else {
        n
    }
}

/// A difference that does not go below zero.
pub open spec fn minus(a: int, b: int) -> usize {
    if a > b {
        (a - b) as usize
    } else {
        0
    }
}

/// The rows of a terminal that are left for a list.
pub open spec fn page_rows(rows: u16, taken: int) -> usize {
    minus(rows as int, taken)
}

/// The rows of a terminal that are left for a list.
pub fn rows_below(rows: u16, taken: u16) -> (r: usize)
    ensures
        r == page_rows(rows, taken as int),
{
    if rows > taken {
        (rows - taken) as usize
    } else {
        0
    }
}

/// The position after another in a list of `n` items; at the end it stays.
pub open spec fn cursor_down(cursor: usize, n: nat) -> usize {
    if cursor + 1 < n {
        (cursor + 1) as usize
    } else {
        cursor
    }
}

/// The position before another; at the start it stays.
pub open spec fn cursor_up(cursor: usize) -> usize {
    minus(cursor as int, 1)
}

/// The position a page before another.
pub open spec fn cursor_back(cursor: usize, page: usize) -> usize {
    minus(cursor as int, page as int)
}

/// The position a page after another in a list of `n` items, or the last one.
pub open spec fn page_down(cursor: usize, page: usize, n: nat) -> usize {
    if n == 0 {
        0
    } else if cursor + page < n {
        (cursor + page) as usize
    } else {
        (n - 1) as usize
    }
}

/// The position a page after another in a list of `n` items; in an empty list it
/// stays.
pub open spec fn cursor_page_down(cursor: usize, page: usize, n: nat) -> usize {
    if n == 0 {
        cursor
    } else {
        page_down(cursor, page, n)
    }
}

/// The position after another in a list of `n` items.
pub fn step_down(cursor: usize, n: usize) -> (r: usize)
    ensures
        r == cursor_down(cursor, n as nat),
{
    if n > 1 && cursor < n - 1 {
        cursor + 1
    } else {
        cursor
    }
}

/// The position before another.
pub fn step_up(cursor: usize, dist: usize) -> (r: usize)
    ensures
        r == cursor_back(cursor, dist),
{
    if cursor > dist {
        cursor - dist
    } else {
        0
    }
}

/// The position a page after another in a list of `n` items.
pub fn step_page_down(cursor: usize, page: usize, n: usize) -> (r: usize)
    ensures
        r == page_down(cursor, page, n as nat),
{
    if n == 0 {
        0
    } else if cursor < n && page < n - cursor {
        cursor + page
    } else {
        n - 1
    }
}

/// The first item that is shown when a list is scrolled so that the cursor is on
/// its last row, or at the start.
pub open spec fn window_start(cursor: usize, rows: usize) -> usize {
    if cursor >= rows {
        plus_one((cursor - rows) as usize)
    } else {
        0
    }
}

/// The first item that is shown.
pub fn window_start_of(cursor: usize, rows: usize) -> (r: usize)
    ensures
        r == window_start(cursor, rows),
{
    if cursor >= rows {
        (cursor - rows).saturating_add(1)
    } else {
        0
    }
}

/// The item that a click on a row hits, if there is one; the list begins on the
/// third row.
pub open spec fn clicked_row(row: u16, start: usize, n: nat) -> Option<usize> {
    if row >= 3 && start + (row - 3) < n {
        Some((start + (row - 3)) as usize)
    } else {
        None
    }
}

/// The item that a click on a row hits, if there is one.
pub fn hit_row(row: u16, start: usize, n: usize) -> (r: Option<usize>)
    ensures
        r == clicked_row(row, start, n as nat),
{
    if row < 3 {
        return None;
    }
    let d: usize = (row - 3) as usize;
    if start < n && d < n - start {
        Some(start + d)
    } else {
        None
    }
}

/// The number of items that are shown of `n` from `start` on, where `taken` rows
/// are not the list's.
pub open spec fn shown_items(start: usize, n: nat, rows: u16, taken: u16) -> nat {
    let left = if start < n {
        (n - start) as nat
    } else {
        0
    };
    if left < page_rows(rows, taken as int) {
        left
    } else {
        page_rows(rows, taken as int) as nat
    }
}

/// The number of items that are shown.
pub fn count_items(start: usize, n: usize, rows: u16, taken: u16) -> (r: u16)
    ensures
        r == shown_items(start, n as nat, rows, taken),
        r + taken <= u16::MAX || r == 0,
{
    let left: usize = if start < n {
        n - start
    } else {
        0
    };
    let page: usize = rows_below(rows, taken);
    if left < page {
        left as u16
    } else {
        page as u16
    }
}

/// The first item that is shown once the cursor is among those shown.
pub open spec fn scrolled(cursor: usize, offset: usize, rows: usize) -> usize {
    if rows == 0 {
        offset
    } else if cursor < offset {
        cursor
    } else if cursor >= offset + rows {
        (cursor - rows + 1) as usize
    } else {
        offset
    }
}

/// The first item that is shown once the cursor is among those shown.
pub fn scroll_to(cursor: usize, offset: usize, rows: usize) -> (r: usize)
    ensures
        r == scrolled(cursor, offset, rows),
{
    if rows == 0 {
        offset
    } else if cursor < offset {
        cursor
    } else if cursor - offset >= rows {
        cursor - rows + 1
    } else {
        offset
    }
}

/// Wherever the cursor was, it is among the items shown once the list is
/// scrolled to it.
pub proof fn law_cursor_is_shown(cursor: usize, offset: usize, rows: usize)
    requires
        rows > 0,
    ensures
        ({
            let start = scrolled(cursor, offset, rows);
            start <= cursor < start + rows
        }),
{
}

// ---------------------------------------------------------------------------
// Pagers
// ---------------------------------------------------------------------------

/// Where a key scrolls a list of `n` lines; nothing if it scrolls nothing.
pub open spec fn pager_key(key: Key, scroll: usize, n: nat, rows: u16) -> Option<usize> {
    let page = page_rows(rows, 1);
    match key {
        Key::Char('n') => Some(cursor_down(scroll, n)),
        Key::Char('j') => Some(cursor_down(scroll, n)),
        Key::Down => Some(cursor_down(scroll, n)),
        Key::ScrollDown => Some(cursor_down(scroll, n)),
        Key::Char('p') => Some(cursor_up(scroll)),
        Key::Char('k') => Some(cursor_up(scroll)),
        Key::Up => Some(cursor_up(scroll)),
        Key::ScrollUp => Some(cursor_up(scroll)),
        Key::PageDown => Some(page_down(scroll, page, n)),
        Key::Char(' ') => Some(page_down(scroll, page, n)),
        Key::PageUp => Some(cursor_back(scroll, page)),
        Key::Home => Some(0),
        Key::End => Some(minus(n as int, 1)),
        _ => None,
    }
}

/// Where a key scrolls a list of `n` lines.
pub fn scroll_pager(key: Key, scroll: usize, n: usize, rows: u16) -> (r: Option<usize>)
    ensures
        r == pager_key(key, scroll, n as nat, rows),
{
    let page: usize = rows_below(rows, 1);
    match key {
        Key::Char('n') => Some(step_down(scroll, n)),
        Key::Char('j') => Some(step_down(scroll, n)),
        Key::Down => Some(step_down(scroll, n)),
        Key::ScrollDown => Some(step_down(scroll, n)),
        Key::Char('p') => Some(step_up(scroll, 1)),
        Key::Char('k') => Some(step_up(scroll, 1)),
        Key::Up => Some(step_up(scroll, 1)),
        Key::ScrollUp => Some(step_up(scroll, 1)),
        Key::PageDown => Some(step_page_down(scroll, page, n)),
        Key::Char(' ') => Some(step_page_down(scroll, page, n)),
        Key::PageUp => Some(step_up(scroll, page)),
        Key::Home => Some(0),
        Key::End => Some(step_up(n, 1)),
        _ => None,
    }
}

/// No key scrolls past the last line.
pub proof fn law_pager_stays_within(key: Key, scroll: usize, n: nat, rows: u16)
    requires
        n <= usize::MAX,
        scroll < n,
    ensures
        match pager_key(key, scroll, n, rows) {
            Some(s) => s < n,
            None => true,
        },
{
}

// ---------------------------------------------------------------------------
// Lists of messages
// ---------------------------------------------------------------------------

/// The first message at or after `i` with an id, or the number of messages.
pub open spec fn email_index(s: Seq<EmailV>, id: Seq<char>, i: int) -> int
    decreases s.len() - i,
{
    if i >= s.len() {
        s.len() as int
    } else if s[i].id == id {
        i
    } else {
        email_index(s, id, i + 1)
    }
}

/// The messages with a keyword set or not on the first one with an id.
pub open spec fn with_mark(
    s: Seq<EmailV>,
    id: Seq<char>,
    word: Seq<char>,
    on: bool,
) -> Seq<EmailV> {
    let i = email_index(s, id, 0);
    if i < s.len() {
        s.update(i, with_keyword(s[i], word, on))
    } else {
        s
    }
}

/// Sets a keyword of a message or takes it away.
pub fn mark_email(e: &mut Email, word: &str, on: bool)
    ensures
        final(e).deep_view() == with_keyword(old(e).deep_view(), word@, on),
{
    if on {
        e.keywords.insert(word.to_owned(), true);
    } else {
        e.keywords.remove(word);
    }
}

/// The place of the first message with an id, or the number of messages.
pub fn email_position(v: &Vec<Email>, id: &str) -> (r: usize)
    ensures
        r == email_index(v.deep_view(), id@, 0),
        r <= v@.len(),
{
    let mut i: usize = 0;
    while i < v.len()
        invariant
            i <= v@.len(),
            email_index(v.deep_view(), id@, 0) == email_index(v.deep_view(), id@, i as int),
        decreases v@.len() - i,
    {
        if same(at(v.as_slice(), i).id.as_str(), id) {
            return i;
        }
        i = i + 1;
    }
    i
}

/// Sets a keyword of the first message with an id, or takes it away.
pub fn mark_in_list(v: &mut Vec<Email>, id: &str, word: &str, on: bool)
    ensures
        final(v).deep_view() == with_mark(old(v).deep_view(), id@, word@, on),
{
    let ghost before = v.deep_view();
    let i: usize = email_position(v, id);
    if i < v.len() {
        assert(before[i as int] == v@[i as int].deep_view());
        let mut e = v[i].dup();
        mark_email(&mut e, word, on);
        let ghost ev = e.deep_view();
        v.set(i, e);
        assert(v.deep_view() =~= before.update(i as int, ev));
    }
}

/// Where a message goes back into a list that has become shorter.
pub open spec fn back_index(from_index: usize, n: nat) -> usize {
    if from_index < n {
        from_index
    } else {
        n as usize
    }
}

/// Puts a message into a list at a position, or at its end; says where.
pub fn put_back(v: &mut Vec<Email>, e: Email, from_index: usize) -> (r: usize)
    ensures
        r == back_index(from_index, old(v).deep_view().len()),
        final(v).deep_view() == old(v).deep_view().insert(r as int, e.deep_view()),
{
    let ghost before = v.deep_view();
    let ghost ev = e.deep_view();
    let i: usize = if from_index < v.len() {
        from_index
    } else {
        v.len()
    };
    v.insert(i, e);
    assert(v.deep_view() =~= before.insert(i as int, ev));
    i
}

/// Takes a message out of a list.
pub fn take_out(v: &mut Vec<Email>, i: usize)
    requires
        i < old(v).deep_view().len(),
    ensures
        final(v).deep_view() == old(v).deep_view().remove(i as int),
{
    let ghost before = v.deep_view();
    let _ = v.remove(i);
    assert(v.deep_view() =~= before.remove(i as int));
}

/// The cursor once the message at it has left a list that then has `n` messages.
pub open spec fn cursor_after_removal(cursor: usize, n: nat) -> usize {
    if cursor >= n && cursor > 0 {
        (cursor - 1) as usize
    } else {
        cursor
    }
}

/// The cursor once a list has been replaced by one with `n` items.
pub open spec fn cursor_clamped(cursor: usize, n: nat) -> usize {
    if cursor >= n && n > 0 {
        (n - 1) as usize
    } else {
        cursor
    }
}

/// The cursor once a list has been replaced by one with `n` items.
pub fn clamp_cursor(cursor: usize, n: usize) -> (r: usize)
    ensures
        r == cursor_clamped(cursor, n as nat),
{
    if cursor >= n && n > 0 {
        n - 1
    } else {
        cursor
    }
}

/// What a change is called.
pub open spec fn action_name(a: EmailMutationAction) -> Seq<char> {
    match a {
        EmailMutationAction::MarkRead => "Mark read"@,
        EmailMutationAction::MarkUnread => "Mark unread"@,
        EmailMutationAction::SetFlagged(_) => "Flag update"@,
        EmailMutationAction::Move => "Move"@,
        EmailMutationAction::Destroy => "Expire"@,
    }
}

/// What a change is called.
pub fn name_of_action(a: EmailMutationAction) -> (r: &'static str)
    ensures
        r@ == action_name(a),
{
    match a {
        EmailMutationAction::MarkRead => "Mark read",
        EmailMutationAction::MarkUnread => "Mark unread",
        EmailMutationAction::SetFlagged(_) => "Flag update",
        EmailMutationAction::Move => "Move",
        EmailMutationAction::Destroy => "Expire",
    }
}

/// The sender of a message in a list: the name, else the address.
pub open spec fn list_sender(e: EmailV) -> Seq<char> {
    let unknown = "(unknown)"@;
    match e.from {
        Some(list) => if list.len() > 0 {
            match (list[0].name, list[0].email) {
                (Some(name), _) => name,
                (None, Some(email)) => email,
                (None, None) => unknown,
            }
        } else {
            unknown
        },
        None => unknown,
    }
}

/// The sender of a message in a list.
pub fn sender_in_list(e: &Email) -> (r: String)
    ensures
        r@ == list_sender(e.deep_view()),
{
    match &e.from {
        Some(list) => {
            if list.len() > 0 {
                let a = at(list.as_slice(), 0);
                match &a.name {
                    Some(name) => name.clone(),
                    None => match &a.email {
                        Some(email) => email.clone(),
                        None => "(unknown)".to_owned(),
                    },
                }
            } else {
                "(unknown)".to_owned()
            }
        },
        None => "(unknown)".to_owned(),
    }
}

/// The day of a message in a list: the first ten bytes of its timestamp.
pub open spec fn list_date(e: EmailV) -> Seq<char> {
    match e.received_at {
        Some(d) => byte_prefix(d, 10),
        None => Seq::empty(),
    }
}

/// The day of a message in a list.
pub fn date_in_list(e: &Email) -> (r: String)
    ensures
        r@ == list_date(e.deep_view()),
{
    match &e.received_at {
        Some(d) => take_bytes(d.as_str(), 10),
        None => String::new(),
    }
}

/// The subject of a message in a list.
pub open spec fn list_subject(e: EmailV) -> Seq<char> {
    match e.subject {
        Some(s) => s,
        None => "(no subject)"@,
    }
}

/// The subject of a message in a list.
pub fn subject_in_list(e: &Email) -> (r: String)
    ensures
        r@ == list_subject(e.deep_view()),
{
    match &e.subject {
        Some(s) => s.clone(),
        None => "(no subject)".to_owned(),
    }
}

/// The marks of a message in a list: unread, and flagged.
pub open spec fn list_marks(e: EmailV) -> Seq<char> {
    (if lookup(e.keywords, "$seen"@) is None {
        "N"@
    } else {
        " "@
    }) + (if lookup(e.keywords, "$flagged"@) is Some {
        "F"@
    } else {
        " "@
    })
}

/// The marks of a message in a list.
pub fn marks_in_list(e: &Email) -> (r: String)
    ensures
        r@ == list_marks(e.deep_view()),
{
    text2(
        if !e.keywords.contains_key("$seen") {
            "N"
        } else {
            " "
        },
        if e.keywords.contains_key("$flagged") {
            "F"
        } else {
            " "
        },
    )
}

/// Lists whose messages have the same ids have them in the same places.
pub proof fn lemma_index_keeps(a: Seq<EmailV>, b: Seq<EmailV>, id: Seq<char>, i: int)
    requires
        a.len() == b.len(),
        forall|j: int| 0 <= j < a.len() ==> (#[trigger] a[j]).id == b[j].id,
        0 <= i,
    ensures
        email_index(a, id, i) == email_index(b, id, i),
    decreases a.len() - i,
{
    if i < a.len() {
        assert(a[i].id == b[i].id);
        lemma_index_keeps(a, b, id, i + 1);
    }
}

/// Whether no two messages have the same id.
pub open spec fn ids_distinct(emails: Seq<EmailV>) -> bool {
    forall|i: int, j: int|
        0 <= i < j < emails.len() ==> (#[trigger] emails[i]).id != (#[trigger] emails[j]).id
}

/// Whether every keyword of a message is set to true, as servers give them.
pub open spec fn keywords_true(e: EmailV) -> bool {
    forall|word: Seq<char>| (#[trigger] lookup(e.keywords, word)) is Some ==> lookup(
        e.keywords,
        word,
    ) == Some(true)
}

/// Whether two messages are the same, in whatever order their keywords stand.
pub open spec fn same_email(a: EmailV, b: EmailV) -> bool {
    &&& EmailV { keywords: b.keywords, ..a } == b
    &&& forall|word: Seq<char>| #[trigger] lookup(a.keywords, word) == lookup(b.keywords, word)
}

/// Whether two lists hold the same messages in the same order.
pub open spec fn same_emails(a: Seq<EmailV>, b: Seq<EmailV>) -> bool {
    &&& a.len() == b.len()
    &&& forall|i: int| 0 <= i < a.len() ==> same_email(#[trigger] a[i], b[i])
}

/// A keyword that is turned round and back again leaves the message the same.
pub proof fn lemma_mark_and_back(e: EmailV, mark: Seq<char>)
    requires
        keywords_true(e),
    ensures
        ({
            let was = lookup(e.keywords, mark) is Some;
            same_email(with_keyword(with_keyword(e, mark, !was), mark, was), e)
        }),
{
    let was = lookup(e.keywords, mark) is Some;
    let a = with_keyword(e, mark, !was);
    let r = with_keyword(a, mark, was);
    assert forall|word: Seq<char>| #[trigger] lookup(r.keywords, word) == lookup(
        e.keywords,
        word,
    ) by {
        lemma_lookup_with_entry(e.keywords, mark, true, word);
        lemma_lookup_without_key(e.keywords, mark, word);
        lemma_lookup_with_entry(a.keywords, mark, true, word);
        lemma_lookup_without_key(a.keywords, mark, word);
    }
}

proof fn lemma_index_of(s: Seq<EmailV>, c: int, i: int)
    requires
        ids_distinct(s),
        0 <= i <= c < s.len(),
    ensures
        email_index(s, s[c].id, i) == c,
    decreases c - i,
{
    if i < c {
        lemma_index_of(s, c, i + 1);
    }
}

/// A keyword of a message that is turned round and back again leaves the list the
/// same.
pub proof fn lemma_marks_and_back(s: Seq<EmailV>, c: int, mark: Seq<char>)
    requires
        ids_distinct(s),
        0 <= c < s.len(),
        keywords_true(s[c]),
    ensures
        ({
            let was = lookup(s[c].keywords, mark) is Some;
            same_emails(with_mark(with_mark(s, s[c].id, mark, !was), s[c].id, mark, was), s)
        }),
{
    let was = lookup(s[c].keywords, mark) is Some;
    let t = with_mark(s, s[c].id, mark, !was);
    lemma_index_of(s, c, 0);
    lemma_index_keeps(s, t, s[c].id, 0);
    lemma_mark_and_back(s[c], mark);
}

/// Where a message is found, it is in the list.
pub proof fn lemma_email_index(s: Seq<EmailV>, id: Seq<char>, i: int)
    requires
        0 <= i <= s.len(),
    ensures
        i <= email_index(s, id, i) <= s.len(),
    decreases s.len() - i,
{
    if i < s.len() {
        lemma_email_index(s, id, i + 1);
    }
}

/// A keyword changes no list's length.
pub broadcast proof fn lemma_mark_keeps_length(
    s: Seq<EmailV>,
    id: Seq<char>,
    word: Seq<char>,
    on: bool,
)
    ensures
        #[trigger] with_mark(s, id, word, on).len() == s.len(),
{
    lemma_email_index(s, id, 0);
}

// ---------------------------------------------------------------------------
// Any view
// ---------------------------------------------------------------------------

/// The terminal after a view.
pub open spec fn view_shown(t: TerminalV, v: AnyViewV) -> TerminalV {
    match v {
        AnyViewV::Mailboxes(w) => mailbox_list_shown(t, w),
        AnyViewV::Emails(w) => email_list_shown(t, w),
        AnyViewV::Email(w) => email_view_shown(t, w),
        AnyViewV::Thread(w) => thread_view_shown(t, w),
        AnyViewV::Help(w) => help_shown(t, w),
        AnyViewV::Retention(w) => preview_shown(t, w),
    }
}

/// A view after a key, the outbox, and what is to be done.
pub open spec fn view_key(v: AnyViewV, o: OutboxV, key: Key, rows: u16) -> (
    AnyViewV,
    OutboxV,
    ViewActionV,
) {
    match v {
        AnyViewV::Mailboxes(w) => {
            let r = mailbox_list_key(w, o, key, rows);
            (AnyViewV::Mailboxes(r.0), r.1, r.2)
        },
        AnyViewV::Emails(w) => {
            let r = email_list_key(w, o, key, rows);
            (AnyViewV::Emails(r.0), r.1, r.2)
        },
        AnyViewV::Email(w) => {
            let r = email_view_key(w, o, key, rows);
            (AnyViewV::Email(r.0), r.1, r.2)
        },
        AnyViewV::Thread(w) => {
            let r = thread_view_key(w, o, key, rows);
            (AnyViewV::Thread(r.0), r.1, r.2)
        },
        AnyViewV::Help(w) => {
            let r = help_key(w, key, rows);
            (AnyViewV::Help(r.0), o, r.1)
        },
        AnyViewV::Retention(w) => {
            let r = preview_key(w, key, rows);
            (AnyViewV::Retention(r.0), o, r.1)
        },
    }
}

/// A view after a response, the outbox, and whether the response was for it.
pub open spec fn view_response(
    v: AnyViewV,
    o: OutboxV,
    response: BackendResponseV,
    now: Seq<char>,
) -> (AnyViewV, OutboxV, bool) {
    match v {
        AnyViewV::Mailboxes(w) => {
            let r = mailbox_list_response(w, o, response, now);
            (AnyViewV::Mailboxes(r.0), r.1, r.2)
        },
        AnyViewV::Emails(w) => {
            let r = email_list_response(w, o, response, now);
            (AnyViewV::Emails(r.0), r.1, r.2)
        },
        AnyViewV::Email(w) => {
            let r = email_view_response(w, o, response);
            (AnyViewV::Email(r.0), r.1, r.2)
        },
        AnyViewV::Thread(w) => {
            let r = thread_view_response(w, o, response);
            (AnyViewV::Thread(r.0), r.1, r.2)
        },
        _ => (v, o, false),
    }
}

/// A view after it is asked what is to be done, the outbox, and the answer.
pub open spec fn view_pending(v: AnyViewV, o: OutboxV) -> (AnyViewV, OutboxV, Option<ViewActionV>) {
    match v {
        AnyViewV::Mailboxes(w) => {
            let r = mailbox_list_pending(w, o);
            (AnyViewV::Mailboxes(r.0), r.1, r.2)
        },
        AnyViewV::Emails(w) => {
            let r = email_list_pending(w, o);
            (AnyViewV::Emails(r.0), r.1, r.2)
        },
        AnyViewV::Email(w) => (
            AnyViewV::Email(EmailViewV { pending_compose: None, ..w }),
            o,
            match w.pending_compose {
                Some(draft) => Some(ViewActionV::Compose(draft)),
                None => None,
            },
        ),
        AnyViewV::Thread(w) => {
            let r = thread_view_pending(w, o);
            (AnyViewV::Thread(r.0), r.1, r.2)
        },
        _ => (v, o, None),
    }
}

/// A view after the time for a refresh has come, the outbox, and whether a refresh
/// was asked for: only the lists of mailboxes and of messages ask for one.
pub open spec fn view_sync(v: AnyViewV, o: OutboxV) -> (AnyViewV, OutboxV, bool) {
    match v {
        AnyViewV::Mailboxes(w) => {
            let r = mailbox_list_sync(w, o);
            (AnyViewV::Mailboxes(r.0), r.1, r.2)
        },
        AnyViewV::Emails(w) => {
            let r = email_list_sync(w, o);
            (AnyViewV::Emails(r.0), r.1, r.2)
        },
        _ => (v, o, false),
    }
}

impl AnyView {
    /// Shows the view.
    pub fn render(&self, term: &mut Terminal)
        ensures
            final(term).deep_view() == view_shown(old(term).deep_view(), self.deep_view()),
    {
        match self {
            AnyView::Mailboxes(w) => w.render(term),
            AnyView::Emails(w) => w.render(term),
            AnyView::Email(w) => w.render(term),
            AnyView::Thread(w) => w.render(term),
            AnyView::Help(w) => w.render(term),
            AnyView::Retention(w) => w.render(term),
        }
    }

    /// Takes a key.
    pub fn handle_key(&mut self, key: Key, term_rows: u16, out: &mut Outbox) -> (r: ViewAction)
        ensures
            (final(self).deep_view(), final(out).deep_view(), r.deep_view()) == view_key(
                old(self).deep_view(),
                old(out).deep_view(),
                key,
                term_rows,
            ),
    {
        match self {
            AnyView::Mailboxes(w) => w.handle_key(key, term_rows, out),
            AnyView::Emails(w) => w.handle_key(key, term_rows, out),
            AnyView::Email(w) => w.handle_key(key, term_rows, out),
            AnyView::Thread(w) => w.handle_key(key, term_rows, out),
            AnyView::Help(w) => w.handle_key(key, term_rows),
            AnyView::Retention(w) => w.handle_key(key, term_rows),
        }
    }

    /// Whether the view wants to hear of the mouse: all do but that of a message.
    pub fn wants_mouse(&self) -> (r: bool)
        ensures
            r == !(self.deep_view() is Email),
    {
        match self {
            AnyView::Email(w) => w.wants_mouse(),
            _ => true,
        }
    }

    /// Takes a response; says whether it was for this view.
    pub fn on_response(&mut self, response: &BackendResponse, now: &str, out: &mut Outbox) -> (r:
        bool)
        ensures
            (final(self).deep_view(), final(out).deep_view(), r) == view_response(
                old(self).deep_view(),
                old(out).deep_view(),
                response.deep_view(),
                now@,
            ),
    {
        match self {
            AnyView::Mailboxes(w) => w.on_response(response, now, out),
            AnyView::Emails(w) => w.on_response(response, now, out),
            AnyView::Email(w) => w.on_response(response, out),
            AnyView::Thread(w) => w.on_response(response, out),
            AnyView::Help(w) => w.on_response(response),
            AnyView::Retention(w) => w.on_response(response),
        }
    }

    /// Says what is to be done after what happened before.
    pub fn take_pending_action(&mut self, out: &mut Outbox) -> (r: Option<ViewAction>)
        ensures
            (final(self).deep_view(), final(out).deep_view(), r.deep_view()) == view_pending(
                old(self).deep_view(),
                old(out).deep_view(),
            ),
    {
        match self {
            AnyView::Mailboxes(w) => w.take_pending_action(out),
            AnyView::Emails(w) => w.take_pending_action(out),
            AnyView::Email(w) => w.take_pending_action(),
            AnyView::Thread(w) => w.take_pending_action(out),
            _ => None,
        }
    }

    /// Asks for a refresh, as is due from time to time; says whether it did.
    pub fn trigger_periodic_sync(&mut self, out: &mut Outbox) -> (r: bool)
        ensures
            (final(self).deep_view(), final(out).deep_view(), r) == view_sync(
                old(self).deep_view(),
                old(out).deep_view(),
            ),
    {
        match self {
            AnyView::Mailboxes(w) => w.trigger_periodic_sync(out),
            AnyView::Emails(w) => w.trigger_periodic_sync(out),
            _ => false,
        }
    }
}

// ---------------------------------------------------------------------------
// The stack of views
// ---------------------------------------------------------------------------

/// The stack with a view on top.
pub open spec fn pushed(s: ViewStackV, v: AnyViewV) -> ViewStackV {
    ViewStackV { views: s.views.push(v) }
}

/// The stack without its top view; the last view stays.
pub open spec fn popped(s: ViewStackV) -> ViewStackV {
    if s.views.len() > 1 {
        ViewStackV { views: s.views.drop_last() }
    } else {
        s
    }
}

/// The stack with another view in place of the top one.
pub open spec fn with_top(s: ViewStackV, v: AnyViewV) -> ViewStackV {
    ViewStackV { views: s.views.update(s.views.len() - 1, v) }
}

/// The stack after the first `k` views, from the bottom, have taken a response, the
/// outbox, and whether the top view is to be shown anew.
pub open spec fn stack_response(
    s: ViewStackV,
    o: OutboxV,
    response: BackendResponseV,
    now: Seq<char>,
    k: int,
) -> (ViewStackV, OutboxV, bool)
    decreases k,
{
    if k <= 0 {
        (s, o, false)
    } else {
        let before = stack_response(s, o, response, now, k - 1);
        let r = view_response(before.0.views[k - 1], before.1, response, now);
        (
            ViewStackV { views: before.0.views.update(k - 1, r.0) },
            r.1,
            before.2 || (r.2 && k == s.views.len()),
        )
    }
}

proof fn lemma_stack_response_length(
    s: ViewStackV,
    o: OutboxV,
    response: BackendResponseV,
    now: Seq<char>,
    k: int,
)
    requires
        k <= s.views.len(),
    ensures
        stack_response(s, o, response, now, k).0.views.len() == s.views.len(),
    decreases k,
{
    if k > 0 {
        lemma_stack_response_length(s, o, response, now, k - 1);
    }
}

/// A response neither opens nor closes a view.
pub proof fn law_response_keeps_views(
    s: ViewStackV,
    o: OutboxV,
    response: BackendResponseV,
    now: Seq<char>,
)
    ensures
        stack_response(s, o, response, now, s.views.len() as int).0.views.len() == s.views.len(),
{
    lemma_stack_response_length(s, o, response, now, s.views.len() as int);
}

/// A view that was opened and closed again leaves the views below it as they were,
/// and the last view is never closed.
pub proof fn law_push_then_pop(s: ViewStackV, v: AnyViewV)
    requires
        s.views.len() > 0,
    ensures
        popped(pushed(s, v)) == s,
        popped(s).views.len() > 0,
{
    assert(s.views.push(v).drop_last() =~= s.views);
}

impl ViewStack {
    /// A stack of one view.
    pub fn new(initial: AnyView) -> (r: ViewStack)
        ensures
            r.deep_view().views == Seq::<AnyViewV>::empty().push(initial.deep_view()),
    {
        let mut views: Vec<AnyView> = no_items();
        put(&mut views, initial);
        ViewStack { views }
    }

    /// Shows the top view.
    pub fn render_current(&self, term: &mut Terminal)
        ensures
            final(term).deep_view() == (if self.deep_view().views.len() > 0 {
                view_shown(old(term).deep_view(), self.deep_view().views.last())
            } else {
                old(term).deep_view()
            }),
    {
        let n: usize = self.views.len();
        if n > 0 {
            at(self.views.as_slice(), n - 1).render(term);
        }
    }

    /// Hands a key to the top view.
    pub fn handle_key(&mut self, key: Key, term_rows: u16, out: &mut Outbox) -> (r: Option<
        ViewAction,
    >)
        ensures
            ({
                let s = old(self).deep_view();
                if s.views.len() > 0 {
                    let k = view_key(s.views.last(), old(out).deep_view(), key, term_rows);
                    &&& final(self).deep_view() == with_top(s, k.0)
                    &&& final(out).deep_view() == k.1
                    &&& r.deep_view() == Some(k.2)
                } else {
                    &&& final(self).deep_view() == s
                    &&& final(out).deep_view() == old(out).deep_view()
                    &&& r is None
                }
            }),
    {
        let n: usize = self.views.len();
        if n == 0 {
            return None;
        }
        let ghost before = self.deep_view();
        assert(before.views.last() == self.views@[n - 1].deep_view());
        let action = self.views[n - 1].handle_key(key, term_rows, out);
        assert(self.deep_view().views =~= before.views.update(
            n - 1,
            self.views@[n - 1].deep_view(),
        ));
        Some(action)
    }

    /// Hands a response to all views; says whether the top one is to be shown anew.
    pub fn handle_response(
        &mut self,
        response: &BackendResponse,
        now: &str,
        out: &mut Outbox,
    ) -> (r:
        bool)
        ensures
            (final(self).deep_view(), final(out).deep_view(), r) == stack_response(
                old(self).deep_view(),
                old(out).deep_view(),
                response.deep_view(),
                now@,
                old(self).deep_view().views.len() as int,
            ),
    {
        let ghost s = self.deep_view();
        let ghost o = out.deep_view();
        let ghost rv = response.deep_view();
        let n: usize = self.views.len();
        let mut needs_render = false;
        let mut i: usize = 0;
        while i < n
            invariant
                i <= n,
                n == self.views@.len(),
                n == s.views.len(),
                rv == response.deep_view(),
                (self.deep_view(), out.deep_view(), needs_render) == stack_response(
                    s,
                    o,
                    rv,
                    now@,
                    i as int,
                ),
            decreases n - i,
        {
            let ghost before = self.deep_view();
            assert(before.views[i as int] == self.views@[i as int].deep_view());
            let consumed = self.views[i].on_response(response, now, out);
            assert(self.deep_view().views =~= before.views.update(
                i as int,
                self.views@[i as int].deep_view(),
            ));
            if consumed && i == n - 1 {
                needs_render = true;
            }
            i = i + 1;
        }
        needs_render
    }

    /// Asks the top view what is to be done after what happened before.
    pub fn take_pending_action(&mut self, out: &mut Outbox) -> (r: Option<ViewAction>)
        ensures
            ({
                let s = old(self).deep_view();
                if s.views.len() > 0 {
                    let k = view_pending(s.views.last(), old(out).deep_view());
                    &&& final(self).deep_view() == with_top(s, k.0)
                    &&& final(out).deep_view() == k.1
                    &&& r.deep_view() == k.2
                } else {
                    &&& final(self).deep_view() == s
                    &&& final(out).deep_view() == old(out).deep_view()
                    &&& r is None
                }
            }),
    {
        let n: usize = self.views.len();
        if n == 0 {
            return None;
        }
        let ghost before = self.deep_view();
        assert(before.views.last() == self.views@[n - 1].deep_view());
        let action = self.views[n - 1].take_pending_action(out);
        assert(self.deep_view().views =~= before.views.update(
            n - 1,
            self.views@[n - 1].deep_view(),
        ));
        action
    }

    /// Lets the top view ask for a refresh; says whether it did.
    pub fn trigger_periodic_sync(&mut self, out: &mut Outbox) -> (r: bool)
        ensures
            ({
                let s = old(self).deep_view();
                if s.views.len() > 0 {
                    let k = view_sync(s.views.last(), old(out).deep_view());
                    &&& final(self).deep_view() == with_top(s, k.0)
                    &&& final(out).deep_view() == k.1
                    &&& r == k.2
                } else {
                    &&& final(self).deep_view() == s
                    &&& final(out).deep_view() == old(out).deep_view()
                    &&& !r
                }
            }),
    {
        let n: usize = self.views.len();
        if n == 0 {
            return false;
        }
        let ghost before = self.deep_view();
        assert(before.views.last() == self.views@[n - 1].deep_view());
        let r = self.views[n - 1].trigger_periodic_sync(out);
        assert(self.deep_view().views =~= before.views.update(
            n - 1,
            self.views@[n - 1].deep_view(),
        ));
        r
    }

    /// Whether the top view wants to hear of the mouse.
    pub fn wants_mouse(&self) -> (r: bool)
        ensures
            r == (self.deep_view().views.len() > 0 ==> !(self.deep_view().views.last() is Email)),
    {
        let n: usize = self.views.len();
        if n > 0 {
            at(self.views.as_slice(), n - 1).wants_mouse()
        } else {
            true
        }
    }

    /// Puts a view on top.
    pub fn push(&mut self, view: AnyView)
        ensures
            final(self).deep_view() == pushed(old(self).deep_view(), view.deep_view()),
    {
        put(&mut self.views, view);
    }

    /// Takes the top view away, unless it is the last one; says whether it did.
    pub fn pop(&mut self) -> (r: bool)
        ensures
            final(self).deep_view() == popped(old(self).deep_view()),
            r == (old(self).deep_view().views.len() > 1),
    {
        let ghost before = self.deep_view();
        if self.views.len() > 1 {
            let _ = self.views.pop();
            assert(self.deep_view().views =~= before.views.drop_last());
            true
        } else {
            false
        }
    }
}

} // verus!
