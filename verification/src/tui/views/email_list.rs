//! The messages of a mailbox.

use vstd::prelude::*;

use crate::backend::offline::short_count;
use crate::backend::queue::{next_generated_op_id, next_id};
use crate::backend::{
    BackendCommand, BackendCommandV, BackendResponse, BackendResponseV, EmailMutationAction,
    RulesDryRunResult, RulesDryRunResultV, RulesRunResult, RulesRunResultV,
};
use crate::cache::lowered;
use crate::compose::{build_compose_draft, build_reply_draft, compose_draft, reply_draft};
use crate::data::{
    at, law_num_put_then_take, lemma_number_given, lemma_number_taken, lemma_numbers_stay_distinct,
    lookup, no_items, num_lookup, num_put, num_take, num_with, num_without, numbers_distinct,
    numbers_ok, put, result_view, with_entry, Dup, StrMap,
};
use crate::jmap::types::{Email, EmailV, Mailbox, MailboxV};
use crate::rules::{resolve_mailbox_id, resolved_mailbox};
use crate::text::{ascii_lower, dec, decimal, eq_ignore_ascii_case, same};
use crate::tui::input::Key;
use crate::tui::layout::{pad, padded, truncate, truncated};
use crate::tui::screen::{row_text, status_line, title, Terminal, TerminalV};
use crate::tui::views::email_view::{
    blank_email_view, make_seen_command, move_in_picker, no_expiry, picker_key, picker_shown,
    picker_status, picker_text, render_picker, seen_command, unresolved, unresolved_message,
    EmailView, EmailViewV,
};
use crate::tui::views::help::{help_view, HelpView};
use crate::tui::views::thread_view::{
    action_or_continue, blank_thread_view, message_row, or_continue, render_message_row,
    thread_asked, ThreadView,
};
use crate::tui::views::{
    action_name, back_index, clamp_cursor, clicked_row, closed_channel, count_items,
    cursor_after_removal, cursor_back, cursor_clamped, date_in_list, email_index, email_position,
    failure, hit_row, ids_distinct, keywords_true, lemma_mark_keeps_length, lemma_marks_and_back,
    list_date, list_marks, list_sender, list_subject, mark_in_list, marks_in_list, minus,
    name_of_action, page_down, page_rows, plus_one, pop_char, put_back, rows_below, same_emails,
    scroll_to, scrolled, sender_in_list, sent_to, shown_items, status_with, step_page_down, step_up,
    subject_in_list, take_out, text2, text3, with_error, with_mark, with_status, without_last,
    AnyView, AnyViewV, Outbox, OutboxV, PendingWriteOp, PendingWriteOpV, ViewAction, ViewActionV,
};

verus! {

broadcast use vstd::seq_lib::group_seq_properties;

/// The messages of a mailbox.
#[derive(Debug)]
pub struct EmailListView {
    pub reply_from_address: String,
    pub mailbox_id: String,
    pub mailbox_name: String,
    pub page_size: u32,
    pub emails: Vec<Email>,
    pub cursor: usize,
    pub total: Option<u32>,
    pub next_query_position: u32,
    pub last_loaded_count: u32,
    pub loading: bool,
    pub loading_more: bool,
    pub error: Option<String>,
    pub pending_click: bool,
    pub pending_reply_request: Option<(String, bool)>,
    pub pending_compose: Option<String>,
    pub pending_rules_preview: Option<(String, RulesDryRunResult)>,
    pub mailboxes: Vec<Mailbox>,
    pub move_mode: bool,
    pub move_cursor: usize,
    pub search_mode: bool,
    pub search_input: String,
    pub active_search: Option<String>,
    pub status_message: Option<String>,
    pub next_write_op_id: u64,
    pub pending_write_ops: Vec<(u64, PendingWriteOp)>,
    pub thread_counts: StrMap<(usize, usize)>,
    pub scroll_offset: usize,
    pub archive_folder: String,
    pub deleted_folder: String,
    pub browser: Option<String>,
    pub last_refreshed: Option<String>,
}

/// The contents of an `EmailListView`.
pub struct EmailListViewV {
    pub reply_from_address: Seq<char>,
    pub mailbox_id: Seq<char>,
    pub mailbox_name: Seq<char>,
    pub page_size: u32,
    pub emails: Seq<EmailV>,
    pub cursor: usize,
    pub total: Option<u32>,
    pub next_query_position: u32,
    pub last_loaded_count: u32,
    pub loading: bool,
    pub loading_more: bool,
    pub error: Option<Seq<char>>,
    pub pending_click: bool,
    pub pending_reply_request: Option<(Seq<char>, bool)>,
    pub pending_compose: Option<Seq<char>>,
    pub pending_rules_preview: Option<(Seq<char>, RulesDryRunResultV)>,
    pub mailboxes: Seq<MailboxV>,
    pub move_mode: bool,
    pub move_cursor: usize,
    pub search_mode: bool,
    pub search_input: Seq<char>,
    pub active_search: Option<Seq<char>>,
    pub status_message: Option<Seq<char>>,
    pub next_write_op_id: u64,
    pub pending_write_ops: Seq<(u64, PendingWriteOpV)>,
    pub thread_counts: Seq<(Seq<char>, (usize, usize))>,
    pub scroll_offset: usize,
    pub archive_folder: Seq<char>,
    pub deleted_folder: Seq<char>,
    pub browser: Option<Seq<char>>,
    pub last_refreshed: Option<Seq<char>>,
}

impl DeepView for EmailListView {
    type V = EmailListViewV;

    open spec fn deep_view(&self) -> EmailListViewV {
        EmailListViewV {
            reply_from_address: self.reply_from_address@,
            mailbox_id: self.mailbox_id@,
            mailbox_name: self.mailbox_name@,
            page_size: self.page_size,
            emails: self.emails.deep_view(),
            cursor: self.cursor,
            total: self.total.deep_view(),
            next_query_position: self.next_query_position,
            last_loaded_count: self.last_loaded_count,
            loading: self.loading,
            loading_more: self.loading_more,
            error: self.error.deep_view(),
            pending_click: self.pending_click,
            pending_reply_request: self.pending_reply_request.deep_view(),
            pending_compose: self.pending_compose.deep_view(),
            pending_rules_preview: self.pending_rules_preview.deep_view(),
            mailboxes: self.mailboxes.deep_view(),
            move_mode: self.move_mode,
            move_cursor: self.move_cursor,
            search_mode: self.search_mode,
            search_input: self.search_input@,
            active_search: self.active_search.deep_view(),
            status_message: self.status_message.deep_view(),
            next_write_op_id: self.next_write_op_id,
            pending_write_ops: self.pending_write_ops.deep_view(),
            thread_counts: self.thread_counts.deep_view(),
            scroll_offset: self.scroll_offset,
            archive_folder: self.archive_folder@,
            deleted_folder: self.deleted_folder@,
            browser: self.browser.deep_view(),
            last_refreshed: self.last_refreshed.deep_view(),
        }
    }
}

/// The list of a mailbox before its messages have come.
pub open spec fn blank_email_list(
    reply_from_address: Seq<char>,
    mailbox_id: Seq<char>,
    mailbox_name: Seq<char>,
    page_size: u32,
    mailboxes: Seq<MailboxV>,
    archive_folder: Seq<char>,
    deleted_folder: Seq<char>,
    browser: Option<Seq<char>>,
) -> EmailListViewV {
    EmailListViewV {
        reply_from_address,
        mailbox_id,
        mailbox_name,
        page_size,
        emails: Seq::empty(),
        cursor: 0,
        total: None,
        next_query_position: 0,
        last_loaded_count: 0,
        loading: true,
        loading_more: false,
        error: None,
        pending_click: false,
        pending_reply_request: None,
        pending_compose: None,
        pending_rules_preview: None,
        mailboxes,
        move_mode: false,
        move_cursor: 0,
        search_mode: false,
        search_input: Seq::empty(),
        active_search: None,
        status_message: None,
        next_write_op_id: 1,
        pending_write_ops: Seq::empty(),
        thread_counts: Seq::empty(),
        scroll_offset: 0,
        archive_folder,
        deleted_folder,
        browser,
        last_refreshed: None,
    }
}

impl EmailListView {
    /// The list of a mailbox before its messages have come.
    pub fn new(
        reply_from_address: String,
        mailbox_id: String,
        mailbox_name: String,
        page_size: u32,
        mailboxes: Vec<Mailbox>,
        archive_folder: String,
        deleted_folder: String,
        browser: Option<String>,
    ) -> (r: EmailListView)
        ensures
            r.deep_view() == blank_email_list(
                reply_from_address@,
                mailbox_id@,
                mailbox_name@,
                page_size,
                mailboxes.deep_view(),
                archive_folder@,
                deleted_folder@,
                browser.deep_view(),
            ),
    {
        let emails: Vec<Email> = no_items();
        let pending_write_ops: Vec<(u64, PendingWriteOp)> = no_items();
        let thread_counts: StrMap<(usize, usize)> = StrMap::new();
        EmailListView {
            reply_from_address,
            mailbox_id,
            mailbox_name,
            page_size,
            emails,
            cursor: 0,
            total: None,
            next_query_position: 0,
            last_loaded_count: 0,
            loading: true,
            loading_more: false,
            error: None,
            pending_click: false,
            pending_reply_request: None,
            pending_compose: None,
            pending_rules_preview: None,
            mailboxes,
            move_mode: false,
            move_cursor: 0,
            search_mode: false,
            search_input: String::new(),
            active_search: None,
            status_message: None,
            next_write_op_id: 1,
            pending_write_ops,
            thread_counts,
            scroll_offset: 0,
            archive_folder,
            deleted_folder,
            browser,
            last_refreshed: None,
        }
    }
}

/// A total after a message has left.
pub open spec fn total_lowered(total: Option<u32>) -> Option<u32> {
    match total {
        Some(n) => Some(lowered(n)),
        None => None,
    }
}

/// A total after a message has come back.
pub open spec fn total_raised(total: Option<u32>) -> Option<u32> {
    match total {
        Some(n) => Some(
            if n < u32::MAX {
                (n + 1) as u32
            } else {
                n
            },
        ),
        None => None,
    }
}

/// Whether the mailbox is the one for deleted messages.
pub open spec fn in_deleted_folder(v: EmailListViewV) -> bool {
    ascii_lower(v.mailbox_name) == ascii_lower(v.deleted_folder) || resolved_mailbox(
        v.deleted_folder,
        v.mailboxes,
    ) == Some(v.mailbox_id)
}

impl EmailListView {
    /// Whether the mailbox is the one for deleted messages.
    pub fn is_in_deleted_folder(&self) -> (r: bool)
        ensures
            r == in_deleted_folder(self.deep_view()),
    {
        if eq_ignore_ascii_case(self.mailbox_name.as_str(), self.deleted_folder.as_str()) {
            return true;
        }
        match resolve_mailbox_id(self.deleted_folder.as_str(), self.mailboxes.as_slice()) {
            Some(id) => same(id.as_str(), self.mailbox_id.as_str()),
            None => false,
        }
    }
}
// ---------------------------------------------------------------------------
// Changes
// ---------------------------------------------------------------------------

/// The list with a keyword of a message set or not.
pub open spec fn with_mark_on(
    v: EmailListViewV,
    id: Seq<char>,
    word: Seq<char>,
    on: bool,
) -> EmailListViewV {
    EmailListViewV { emails: with_mark(v.emails, id, word, on), ..v }
}

/// The list after a change whose outcome is not known is undone.
pub open spec fn undone(v: EmailListViewV, op: PendingWriteOpV) -> EmailListViewV {
    match op {
        PendingWriteOpV::Flag { email_id, old_flagged } => with_mark_on(
            v,
            email_id,
            "$flagged"@,
            old_flagged,
        ),
        PendingWriteOpV::Seen { email_id, old_seen } => with_mark_on(
            v,
            email_id,
            "$seen"@,
            old_seen,
        ),
        PendingWriteOpV::Move { email, from_index } => {
            let i = back_index(from_index, v.emails.len());
            EmailListViewV {
                emails: v.emails.insert(i as int, email),
                cursor: i,
                total: total_raised(v.total),
                ..v
            }
        },
    }
}

/// The list once a change is on its way.
pub open spec fn started(v: EmailListViewV, op: PendingWriteOpV) -> EmailListViewV {
    EmailListViewV {
        next_write_op_id: next_id(v.next_write_op_id),
        pending_write_ops: num_with(v.pending_write_ops, v.next_write_op_id, op),
        ..v
    }
}

/// The list after a change that could not be sent.
pub open spec fn unsent(
    v: EmailListViewV,
    op_id: u64,
    op: PendingWriteOpV,
    label: Seq<char>,
) -> EmailListViewV {
    let w = EmailListViewV { pending_write_ops: num_without(v.pending_write_ops, op_id), ..v };
    EmailListViewV {
        status_message: Some(with_error(label, closed_channel())),
        ..undone(w, op)
    }
}

/// The list and the outbox after a change of a keyword: the change is shown at
/// once, and undone where it cannot be sent.
pub open spec fn marked(
    v: EmailListViewV,
    o: OutboxV,
    id: Seq<char>,
    word: Seq<char>,
    on: bool,
    op: PendingWriteOpV,
    cmd: BackendCommandV,
    label: Seq<char>,
) -> (EmailListViewV, OutboxV) {
    let w = with_mark_on(started(v, op), id, word, on);
    if o.open {
        (w, sent_to(o, cmd))
    } else {
        (unsent(w, v.next_write_op_id, op, label), o)
    }
}

/// The list and the outbox after the key that flags the selected message or takes
/// the flag away.
pub open spec fn flag_toggled(v: EmailListViewV, o: OutboxV) -> (EmailListViewV, OutboxV) {
    if v.cursor < v.emails.len() {
        let e = v.emails[v.cursor as int];
        let old = lookup(e.keywords, "$flagged"@) is Some;
        marked(
            v,
            o,
            e.id,
            "$flagged"@,
            !old,
            PendingWriteOpV::Flag { email_id: e.id, old_flagged: old },
            BackendCommandV::SetEmailFlagged {
                op_id: v.next_write_op_id,
                id: e.id,
                flagged: !old,
            },
            "Flag update"@,
        )
    } else {
        (v, o)
    }
}

/// The list and the outbox after a message is marked as read or as unread.
pub open spec fn seen_set(
    v: EmailListViewV,
    o: OutboxV,
    seen: bool,
    label: Seq<char>,
) -> (EmailListViewV, OutboxV) {
    let e = v.emails[v.cursor as int];
    marked(
        v,
        o,
        e.id,
        "$seen"@,
        seen,
        PendingWriteOpV::Seen { email_id: e.id, old_seen: !seen },
        seen_command(v.next_write_op_id, e.id, seen),
        label,
    )
}

/// The list and the outbox after the key that marks the selected message as read or
/// as unread.
pub open spec fn seen_toggled(v: EmailListViewV, o: OutboxV) -> (EmailListViewV, OutboxV) {
    if v.cursor < v.emails.len() {
        let e = v.emails[v.cursor as int];
        seen_set(v, o, lookup(e.keywords, "$seen"@) is None, "Read state update"@)
    } else {
        (v, o)
    }
}

/// The list and the outbox after a command that takes the selected message away:
/// it leaves the list at once, and comes back where the command cannot be sent.
pub open spec fn taken_away(
    v: EmailListViewV,
    o: OutboxV,
    cmd: BackendCommandV,
    label: Seq<char>,
) -> (
    EmailListViewV,
    OutboxV,
) {
    let op = PendingWriteOpV::Move {
        email: v.emails[v.cursor as int],
        from_index: v.cursor,
    };
    let w = EmailListViewV {
        emails: v.emails.remove(v.cursor as int),
        cursor: cursor_after_removal(v.cursor, (v.emails.len() - 1) as nat),
        total: total_lowered(v.total),
        ..started(v, op)
    };
    if o.open {
        (w, sent_to(o, cmd))
    } else {
        (unsent(w, v.next_write_op_id, op, label), o)
    }
}

/// The list and the outbox after the selected message is moved to a mailbox.
pub open spec fn moved_to(v: EmailListViewV, o: OutboxV, target: Seq<char>, label: Seq<char>) -> (
    EmailListViewV,
    OutboxV,
) {
    if v.cursor < v.emails.len() {
        taken_away(
            v,
            o,
            BackendCommandV::MoveEmail {
                op_id: v.next_write_op_id,
                id: v.emails[v.cursor as int].id,
                to_mailbox_id: target,
            },
            label,
        )
    } else {
        (v, o)
    }
}

/// The list and the outbox after the selected message is moved to a folder.
pub open spec fn moved_to_folder(
    v: EmailListViewV,
    o: OutboxV,
    folder: Seq<char>,
    label: Seq<char>,
) -> (
    EmailListViewV,
    OutboxV,
) {
    match resolved_mailbox(folder, v.mailboxes) {
        Some(target) => moved_to(v, o, target, label),
        None => (EmailListViewV { status_message: Some(unresolved(label, folder)), ..v }, o),
    }
}

/// The list and the outbox after the key that destroys the selected message.
pub open spec fn expired(v: EmailListViewV, o: OutboxV) -> (EmailListViewV, OutboxV) {
    if !in_deleted_folder(v) {
        (EmailListViewV { status_message: Some(no_expiry()), ..v }, o)
    } else if v.cursor < v.emails.len() {
        taken_away(
            v,
            o,
            BackendCommandV::DestroyEmail {
                op_id: v.next_write_op_id,
                id: v.emails[v.cursor as int].id,
            },
            "Expire"@,
        )
    } else {
        (v, o)
    }
}

/// The list and the outbox after the selected message is opened by itself, and its
/// view: the message is asked for, and marked as read if it was not.
pub open spec fn opened_single(
    v: EmailListViewV,
    o: OutboxV,
) -> (EmailListViewV, OutboxV, EmailViewV) {
    let e = v.emails[v.cursor as int];
    let view = blank_email_view(
        v.reply_from_address,
        e.id,
        None,
        in_deleted_folder(v),
        v.mailboxes,
        v.archive_folder,
        v.deleted_folder,
    );
    let asked = sent_to(o, BackendCommandV::GetEmail { id: e.id });
    if lookup(e.keywords, "$seen"@) is None {
        let r = seen_set(v, asked, true, "Mark read"@);
        (r.0, r.1, view)
    } else {
        (v, asked, view)
    }
}

/// The list scrolled so that the cursor is shown.
pub open spec fn scroll_adjusted(v: EmailListViewV, cursor: usize, rows: usize) -> EmailListViewV {
    EmailListViewV { cursor, scroll_offset: scrolled(cursor, v.scroll_offset, rows), ..v }
}

impl EmailListView {
    fn mark_on(&mut self, id: &str, word: &str, on: bool)
        ensures
            final(self).deep_view() == with_mark_on(old(self).deep_view(), id@, word@, on),
    {
        mark_in_list(&mut self.emails, id, word, on);
    }

    fn rollback_pending_write(&mut self, op: PendingWriteOp)
        ensures
            final(self).deep_view() == undone(old(self).deep_view(), op.deep_view()),
    {
        match op {
            PendingWriteOp::Flag { email_id, old_flagged } => {
                self.mark_on(email_id.as_str(), "$flagged", old_flagged);
            },
            PendingWriteOp::Seen { email_id, old_seen } => {
                self.mark_on(email_id.as_str(), "$seen", old_seen);
            },
            PendingWriteOp::Move { email, from_index } => {
                self.cursor = put_back(&mut self.emails, email, from_index);
                self.total = match self.total {
                    Some(n) => Some(n.saturating_add(1)),
                    None => None,
                };
            },
        }
    }

    fn start(&mut self, op: PendingWriteOp) -> (r: u64)
        ensures
            final(self).deep_view() == started(old(self).deep_view(), op.deep_view()),
            r == old(self).deep_view().next_write_op_id,
    {
        let id: u64 = next_generated_op_id(&mut self.next_write_op_id);
        num_put(&mut self.pending_write_ops, id, op);
        id
    }

    fn record_send_failure(&mut self, op_id: u64, op: PendingWriteOp, label: &str)
        ensures
            final(self).deep_view() == unsent(
                old(self).deep_view(),
                op_id,
                op.deep_view(),
                label@,
            ),
    {
        let _ = num_take(&mut self.pending_write_ops, op_id);
        self.rollback_pending_write(op);
        self.status_message = Some(failure(label, "sending on a closed channel"));
    }

    fn mark(
        &mut self,
        id: &str,
        word: &str,
        on: bool,
        op: PendingWriteOp,
        cmd: BackendCommand,
        label: &str,
        out: &mut Outbox,
    )
        ensures
            (final(self).deep_view(), final(out).deep_view()) == marked(
                old(self).deep_view(),
                old(out).deep_view(),
                id@,
                word@,
                on,
                op.deep_view(),
                cmd.deep_view(),
                label@,
            ),
    {
        let op_id: u64 = self.start(op.dup());
        self.mark_on(id, word, on);
        if !out.send(cmd) {
            self.record_send_failure(op_id, op, label);
        }
    }

    fn toggle_flag(&mut self, out: &mut Outbox)
        ensures
            (final(self).deep_view(), final(out).deep_view()) == flag_toggled(
                old(self).deep_view(),
                old(out).deep_view(),
            ),
    {
        if self.cursor < self.emails.len() {
            let e = at(self.emails.as_slice(), self.cursor);
            let id = e.id.clone();
            let old_flagged = e.keywords.contains_key("$flagged");
            let op = PendingWriteOp::Flag { email_id: id.clone(), old_flagged };
            let cmd = BackendCommand::SetEmailFlagged {
                op_id: self.next_write_op_id,
                id: id.clone(),
                flagged: !old_flagged,
            };
            self.mark(id.as_str(), "$flagged", !old_flagged, op, cmd, "Flag update", out);
        }
    }

    fn set_seen(&mut self, seen: bool, label: &str, out: &mut Outbox)
        requires
            old(self).cursor < old(self).emails@.len(),
        ensures
            (final(self).deep_view(), final(out).deep_view()) == seen_set(
                old(self).deep_view(),
                old(out).deep_view(),
                seen,
                label@,
            ),
    {
        let id = at(self.emails.as_slice(), self.cursor).id.clone();
        let op = PendingWriteOp::Seen { email_id: id.clone(), old_seen: !seen };
        let cmd = make_seen_command(self.next_write_op_id, id.clone(), seen);
        self.mark(id.as_str(), "$seen", seen, op, cmd, label, out);
    }

    fn toggle_seen(&mut self, out: &mut Outbox)
        ensures
            (final(self).deep_view(), final(out).deep_view()) == seen_toggled(
                old(self).deep_view(),
                old(out).deep_view(),
            ),
    {
        if self.cursor < self.emails.len() {
            let seen = at(self.emails.as_slice(), self.cursor).keywords.contains_key("$seen");
            self.set_seen(!seen, "Read state update", out);
        }
    }

    fn take_away(&mut self, cmd: BackendCommand, label: &str, out: &mut Outbox)
        requires
            old(self).cursor < old(self).emails@.len(),
        ensures
            (final(self).deep_view(), final(out).deep_view()) == taken_away(
                old(self).deep_view(),
                old(out).deep_view(),
                cmd.deep_view(),
                label@,
            ),
    {
        let ghost v = self.deep_view();
        let from_index: usize = self.cursor;
        let email = at(self.emails.as_slice(), from_index).dup();
        let op = PendingWriteOp::Move { email, from_index };
        let op_id: u64 = self.start(op.dup());
        take_out(&mut self.emails, from_index);
        if self.cursor >= self.emails.len() && self.cursor > 0 {
            self.cursor = self.cursor - 1;
        }
        self.total = match self.total {
            Some(n) => Some(n.saturating_sub(1)),
            None => None,
        };
        if !out.send(cmd) {
            self.record_send_failure(op_id, op, label);
        }
    }

    fn move_to(&mut self, target: String, label: &str, out: &mut Outbox)
        ensures
            (final(self).deep_view(), final(out).deep_view()) == moved_to(
                old(self).deep_view(),
                old(out).deep_view(),
                target@,
                label@,
            ),
    {
        if self.cursor < self.emails.len() {
            let cmd = BackendCommand::MoveEmail {
                op_id: self.next_write_op_id,
                id: at(self.emails.as_slice(), self.cursor).id.clone(),
                to_mailbox_id: target,
            };
            self.take_away(cmd, label, out);
        }
    }

    fn move_selected_to_folder(&mut self, folder: &str, label: &str, out: &mut Outbox)
        ensures
            (final(self).deep_view(), final(out).deep_view()) == moved_to_folder(
                old(self).deep_view(),
                old(out).deep_view(),
                folder@,
                label@,
            ),
    {
        match resolve_mailbox_id(folder, self.mailboxes.as_slice()) {
            Some(target) => {
                self.move_to(target, label, out);
            },
            None => {
                self.status_message = Some(unresolved_message(label, folder));
            },
        }
    }

    fn expire_selected_now(&mut self, out: &mut Outbox)
        ensures
            (final(self).deep_view(), final(out).deep_view()) == expired(
                old(self).deep_view(),
                old(out).deep_view(),
            ),
    {
        if !self.is_in_deleted_folder() {
            self.status_message = Some("Expire is only available in the deleted folder".to_owned());
        } else if self.cursor < self.emails.len() {
            let cmd = BackendCommand::DestroyEmail {
                op_id: self.next_write_op_id,
                id: at(self.emails.as_slice(), self.cursor).id.clone(),
            };
            self.take_away(cmd, "Expire", out);
        }
    }

    fn open_single(&mut self, out: &mut Outbox) -> (r: EmailView)
        requires
            old(self).cursor < old(self).emails@.len(),
        ensures
            (final(self).deep_view(), final(out).deep_view(), r.deep_view()) == opened_single(
                old(self).deep_view(),
                old(out).deep_view(),
            ),
    {
        let e = at(self.emails.as_slice(), self.cursor);
        let id = e.id.clone();
        let seen = e.keywords.contains_key("$seen");
        let view = EmailView::new(
            self.reply_from_address.clone(),
            id.clone(),
            self.is_in_deleted_folder(),
            self.mailboxes.dup(),
            self.archive_folder.clone(),
            self.deleted_folder.clone(),
        );
        let _ = out.send(BackendCommand::GetEmail { id });
        if !seen {
            self.set_seen(true, "Mark read", out);
        }
        view
    }

    fn go_to(&mut self, cursor: usize, max_items: usize)
        ensures
            final(self).deep_view() == scroll_adjusted(old(self).deep_view(), cursor, max_items),
    {
        self.cursor = cursor;
        self.scroll_offset = scroll_to(cursor, self.scroll_offset, max_items);
    }
}

/// Whether the cursor is on a message, or there is none.
pub open spec fn cursor_fits(v: EmailListViewV) -> bool {
    v.cursor < v.emails.len() || v.emails.len() == 0
}

// ---------------------------------------------------------------------------
// Queries
// ---------------------------------------------------------------------------

/// The query for the messages from a position on.
pub open spec fn query(v: EmailListViewV, origin: Seq<char>, position: u32) -> BackendCommandV {
    BackendCommandV::QueryEmails {
        origin,
        mailbox_id: v.mailbox_id,
        page_size: v.page_size,
        position,
        search_query: v.active_search,
        received_after: None,
        received_before: None,
    }
}

/// The list and the outbox after a refresh is asked for.
pub open spec fn refreshed(v: EmailListViewV, o: OutboxV, origin: Seq<char>) -> (
    EmailListViewV,
    OutboxV,
) {
    (
        EmailListViewV {
            next_query_position: 0,
            last_loaded_count: 0,
            loading: true,
            loading_more: false,
            scroll_offset: 0,
            ..v
        },
        sent_to(o, query(v, origin, 0)),
    )
}

/// Whether there may be more messages than those loaded.
pub open spec fn more_to_load(v: EmailListViewV) -> bool {
    !v.loading && v.emails.len() > 0 && match v.total {
        Some(total) => (v.emails.len() as u32) < total,
        None => v.last_loaded_count >= v.page_size,
    }
}

/// The list and the outbox after more messages are asked for, if there may be any.
pub open spec fn more_asked(v: EmailListViewV, o: OutboxV) -> (EmailListViewV, OutboxV) {
    if !more_to_load(v) {
        (v, o)
    } else if o.open {
        (
            EmailListViewV { loading: true, loading_more: true, ..v },
            sent_to(o, query(v, "email_list.load_more"@, v.next_query_position)),
        )
    } else {
        (
            EmailListViewV {
                loading_more: false,
                status_message: Some(with_error("Load more"@, closed_channel())),
                ..v
            },
            o,
        )
    }
}

/// How many messages of a message's thread are unread, and how many there are.
pub open spec fn counts_of(v: EmailListViewV, e: EmailV) -> Option<(usize, usize)> {
    match e.thread_id {
        Some(id) => lookup(v.thread_counts, id),
        None => None,
    }
}

/// The number of messages in a message's thread.
pub open spec fn thread_total(v: EmailListViewV, e: EmailV) -> usize {
    match counts_of(v, e) {
        Some(c) => c.1,
        None => 1,
    }
}

/// The id of a message's thread.
pub open spec fn thread_of(e: EmailV) -> Seq<char> {
    match e.thread_id {
        Some(id) => id,
        None => Seq::empty(),
    }
}

/// The list and the outbox after the selected message or its thread is opened, and
/// what is to be done; nothing where none is selected.
pub open spec fn opened(v: EmailListViewV, o: OutboxV) -> (
    EmailListViewV,
    OutboxV,
    Option<ViewActionV>,
) {
    if v.cursor < v.emails.len() {
        let e = v.emails[v.cursor as int];
        if thread_total(v, e) > 1 {
            (
                v,
                thread_asked(o, thread_of(e)),
                Some(
                    ViewActionV::Push(
                        AnyViewV::Email(
                            blank_email_view(
                                v.reply_from_address,
                                Seq::empty(),
                                Some(thread_of(e)),
                                in_deleted_folder(v),
                                v.mailboxes,
                                v.archive_folder,
                                v.deleted_folder,
                            ),
                        ),
                    ),
                ),
            )
        } else {
            let r = opened_single(v, o);
            (r.0, r.1, Some(ViewActionV::Push(AnyViewV::Email(r.2))))
        }
    } else {
        (v, o, None)
    }
}

/// The list and the outbox after the messages of the selected message's thread are
/// listed, and what is to be done; nothing where none is selected.
pub open spec fn thread_listed(v: EmailListViewV, o: OutboxV, cross_folder: bool) -> (
    EmailListViewV,
    OutboxV,
    Option<ViewActionV>,
) {
    if v.cursor < v.emails.len() {
        let e = v.emails[v.cursor as int];
        if thread_total(v, e) > 1 || cross_folder {
            (
                v,
                thread_asked(o, thread_of(e)),
                Some(
                    ViewActionV::Push(
                        AnyViewV::Thread(
                            blank_thread_view(
                                v.reply_from_address,
                                thread_of(e),
                                list_subject(e),
                                v.mailboxes,
                                v.archive_folder,
                                v.deleted_folder,
                                in_deleted_folder(v),
                                if cross_folder {
                                    None
                                } else {
                                    Some(v.mailbox_id)
                                },
                            ),
                        ),
                    ),
                ),
            )
        } else {
            let r = opened_single(v, o);
            (r.0, r.1, Some(ViewActionV::Push(AnyViewV::Email(r.2))))
        }
    } else {
        (v, o, None)
    }
}

// ---------------------------------------------------------------------------
// Keys
// ---------------------------------------------------------------------------

/// The list and the outbox after a key while a search is typed.
pub open spec fn search_key(v: EmailListViewV, o: OutboxV, key: Key) -> (EmailListViewV, OutboxV) {
    match key {
        Key::Enter => refreshed(
            EmailListViewV {
                search_mode: false,
                active_search: if v.search_input.len() == 0 {
                    None
                } else {
                    Some(v.search_input)
                },
                search_input: Seq::empty(),
                ..v
            },
            o,
            "email_list.search_submit"@,
        ),
        Key::Escape => (EmailListViewV { search_mode: false, search_input: Seq::empty(), ..v }, o),
        Key::Backspace => (EmailListViewV { search_input: without_last(v.search_input), ..v }, o),
        Key::Char(c) => (EmailListViewV { search_input: v.search_input.push(c), ..v }, o),
        _ => (v, o),
    }
}

/// The list and the outbox after a key while a mailbox is picked.
pub open spec fn move_key(v: EmailListViewV, o: OutboxV, key: Key) -> (EmailListViewV, OutboxV) {
    match picker_key(key, v.move_cursor, v.mailboxes.len()) {
        Some(c) => (EmailListViewV { move_cursor: c, ..v }, o),
        None => if key == Key::Escape || key == Key::Char('q') {
            (EmailListViewV { move_mode: false, ..v }, o)
        } else if key == Key::Enter && v.move_cursor < v.mailboxes.len() {
            let r = moved_to(v, o, v.mailboxes[v.move_cursor as int].id, "Move"@);
            (EmailListViewV { move_mode: false, ..r.0 }, r.1)
        } else {
            (v, o)
        },
    }
}

/// The list and the outbox after a key that moves the cursor; nothing if the key
/// moves nothing. At the end of the list more messages are asked for.
pub open spec fn cursor_key(v: EmailListViewV, o: OutboxV, key: Key, page: usize) -> Option<
    (EmailListViewV, OutboxV),
> {
    let n = v.emails.len();
    let down = if v.cursor + 1 < n {
        (scroll_adjusted(v, (v.cursor + 1) as usize, page), o)
    } else {
        more_asked(v, o)
    };
    let up = if v.cursor > 0 {
        (scroll_adjusted(v, (v.cursor - 1) as usize, page), o)
    } else {
        (v, o)
    };
    match key {
        Key::Char('n') => Some(down),
        Key::Char('j') => Some(down),
        Key::Down => Some(down),
        Key::ScrollDown => Some(down),
        Key::Char('p') => Some(up),
        Key::Char('k') => Some(up),
        Key::Up => Some(up),
        Key::ScrollUp => Some(up),
        Key::PageDown => Some(
            if n > 0 {
                let w = scroll_adjusted(v, page_down(v.cursor, page, n), page);
                if w.cursor + 1 >= n {
                    more_asked(w, o)
                } else {
                    (w, o)
                }
            } else {
                (v, o)
            },
        ),
        Key::PageUp => Some((scroll_adjusted(v, cursor_back(v.cursor, page), page), o)),
        Key::Home => Some((scroll_adjusted(v, 0, page), o)),
        Key::End => Some(
            if n > 0 {
                more_asked(scroll_adjusted(v, (n - 1) as usize, page), o)
            } else {
                (v, o)
            },
        ),
        _ => None,
    }
}

/// The list and the outbox after the key for a reply.
pub open spec fn reply_key(v: EmailListViewV, o: OutboxV, all: bool) -> (EmailListViewV, OutboxV) {
    if v.cursor < v.emails.len() {
        let id = v.emails[v.cursor as int].id;
        if o.open {
            (
                EmailListViewV {
                    pending_reply_request: Some((id, all)),
                    status_message: Some(
                        if all {
                            "Preparing reply-all draft..."@
                        } else {
                            "Preparing reply draft..."@
                        },
                    ),
                    ..v
                },
                sent_to(o, BackendCommandV::GetEmailForReply { id }),
            )
        } else {
            (
                EmailListViewV {
                    pending_reply_request: None,
                    status_message: Some(
                        (if all {
                            "Reply all failed to send: "@
                        } else {
                            "Reply failed to send: "@
                        }) + closed_channel(),
                    ),
                    ..v
                },
                o,
            )
        }
    } else {
        (v, o)
    }
}

/// The list and the outbox after the key that tries the rules, or runs them.
pub open spec fn rules_key(v: EmailListViewV, o: OutboxV, run: bool) -> (EmailListViewV, OutboxV) {
    let message = if o.open {
        (if run {
            "Running rules in '"@
        } else {
            "Running rules dry-run in '"@
        }) + v.mailbox_name + "'"@
    } else {
        (if run {
            "Run rules failed to send: "@
        } else {
            "Rules dry-run failed to send: "@
        }) + closed_channel()
    };
    (
        EmailListViewV { status_message: Some(message), ..v },
        sent_to(
            o,
            if run {
                BackendCommandV::RunRulesForMailbox {
                    origin: "email_list.key_E_run_rules"@,
                    mailbox_id: v.mailbox_id,
                    mailbox_name: v.mailbox_name,
                }
            } else {
                BackendCommandV::PreviewRulesForMailbox {
                    origin: "email_list.key_e_dry_run"@,
                    mailbox_id: v.mailbox_id,
                    mailbox_name: v.mailbox_name,
                }
            },
        ),
    )
}

/// The list and the outbox after a key that changes something; nothing if the key
/// is another one.
pub open spec fn change_key(v: EmailListViewV, o: OutboxV, key: Key) -> Option<
    (EmailListViewV, OutboxV),
> {
    match key {
        Key::Char('g') => Some(refreshed(v, o, "email_list.key_g"@)),
        Key::Char('R') => Some(reply_key(v, o, true)),
        Key::Char('r') => Some(reply_key(v, o, false)),
        Key::Char('e') => Some(rules_key(v, o, false)),
        Key::Char('E') => Some(rules_key(v, o, true)),
        Key::Char('f') => Some(flag_toggled(v, o)),
        Key::Char('u') => Some(seen_toggled(v, o)),
        Key::Char('m') => Some(
            if v.emails.len() > 0 && v.mailboxes.len() > 0 {
                (EmailListViewV { move_mode: true, move_cursor: 0, ..v }, o)
            } else {
                (v, o)
            },
        ),
        Key::Char('a') => Some(moved_to_folder(v, o, v.archive_folder, "Archive"@)),
        Key::Char('d') => Some(moved_to_folder(v, o, v.deleted_folder, "Delete"@)),
        Key::Char('D') => Some(expired(v, o)),
        Key::Char('s') => Some(
            (EmailListViewV { search_mode: true, search_input: Seq::empty(), ..v }, o),
        ),
        Key::Char('l') => Some(more_asked(v, o)),
        Key::Escape => Some(
            if v.active_search is Some {
                refreshed(
                    EmailListViewV { active_search: None, ..v },
                    o,
                    "email_list.clear_search_escape"@,
                )
            } else {
                (v, o)
            },
        ),
        Key::MouseClick { row, .. } => Some(
            (
                match clicked_row(row, v.scroll_offset, v.emails.len()) {
                    Some(c) => EmailListViewV { cursor: c, pending_click: true, ..v },
                    None => v,
                },
                o,
            ),
        ),
        _ => None,
    }
}

/// The list after a key outside the modes, the outbox, and what is to be done.
pub open spec fn normal_key(v: EmailListViewV, o: OutboxV, key: Key, rows: u16) -> (
    EmailListViewV,
    OutboxV,
    ViewActionV,
) {
    match cursor_key(v, o, key, page_rows(rows, 4)) {
        Some(r) => (r.0, r.1, ViewActionV::Continue),
        None => match change_key(v, o, key) {
            Some(r) => (r.0, r.1, ViewActionV::Continue),
            None => match key {
                Key::Char('q') => (v, o, ViewActionV::Pop),
                Key::Enter => {
                    let r = opened(v, o);
                    (r.0, r.1, or_continue(r.2))
                },
                Key::Char('t') => {
                    let r = thread_listed(v, o, false);
                    (r.0, r.1, or_continue(r.2))
                },
                Key::AltEnter => {
                    let r = thread_listed(v, o, false);
                    (r.0, r.1, or_continue(r.2))
                },
                Key::Char('T') => {
                    let r = thread_listed(v, o, true);
                    (r.0, r.1, or_continue(r.2))
                },
                Key::Char('c') => (
                    v,
                    o,
                    ViewActionV::Compose(compose_draft(v.reply_from_address)),
                ),
                Key::Char('?') => (v, o, ViewActionV::Push(AnyViewV::Help(help_view()))),
                _ => (v, o, ViewActionV::Continue),
            },
        },
    }
}

/// The list after a key, the outbox, and what is to be done.
pub open spec fn email_list_key(v: EmailListViewV, o: OutboxV, key: Key, rows: u16) -> (
    EmailListViewV,
    OutboxV,
    ViewActionV,
) {
    if v.search_mode {
        let r = search_key(v, o, key);
        (r.0, r.1, ViewActionV::Continue)
    } else if v.move_mode {
        let r = move_key(v, o, key);
        (r.0, r.1, ViewActionV::Continue)
    } else {
        normal_key(v, o, key, rows)
    }
}

/// What is to be done after what happened before: a draft that is ready is edited,
/// what the rules would do is shown, and a click opens a message.
pub open spec fn email_list_pending(v: EmailListViewV, o: OutboxV) -> (
    EmailListViewV,
    OutboxV,
    Option<ViewActionV>,
) {
    match (v.pending_compose, v.pending_rules_preview) {
        (Some(draft), _) => (
            EmailListViewV { pending_compose: None, ..v },
            o,
            Some(ViewActionV::Compose(draft)),
        ),
        (None, Some((mailbox_name, preview))) => (
            EmailListViewV { pending_rules_preview: None, ..v },
            o,
            Some(ViewActionV::ShowRules { mailbox_name, preview }),
        ),
        (None, None) => if v.pending_click {
            opened(EmailListViewV { pending_click: false, ..v }, o)
        } else {
            (v, o, None)
        },
    }
}

// ---------------------------------------------------------------------------
// Responses
// ---------------------------------------------------------------------------

/// The messages of a list with the first `k` of others behind them, those left out
/// that are there already.
pub open spec fn appended(emails: Seq<EmailV>, others: Seq<EmailV>, k: int) -> Seq<EmailV>
    decreases k,
{
    if k <= 0 {
        emails
    } else {
        let before = appended(emails, others, k - 1);
        let e = others[k - 1];
        if email_index(before, e.id, 0) < before.len() {
            before
        } else {
            before.push(e)
        }
    }
}

/// The counts with the first `k` of others put over them.
pub open spec fn counts_extended(
    counts: Seq<(Seq<char>, (usize, usize))>,
    others: Seq<(Seq<char>, (usize, usize))>,
    k: int,
) -> Seq<(Seq<char>, (usize, usize))>
    decreases k,
{
    if k <= 0 {
        counts
    } else {
        with_entry(counts_extended(counts, others, k - 1), others[k - 1].0, others[k - 1].1)
    }
}

/// The list after messages have come: the first page replaces what is there, a
/// later one goes behind it.
pub open spec fn emails_come(
    v: EmailListViewV,
    result: Result<Seq<EmailV>, Seq<char>>,
    total: Option<u32>,
    position: u32,
    loaded: u32,
    counts: Seq<(Seq<char>, (usize, usize))>,
    now: Seq<char>,
) -> EmailListViewV {
    let w = EmailListViewV {
        loading: false,
        loading_more: false,
        total,
        last_loaded_count: loaded,
        next_query_position: if position + loaded <= u32::MAX {
            (position + loaded) as u32
        } else {
            u32::MAX
        },
        ..v
    };
    match result {
        Ok(emails) => {
            let all = if position == 0 {
                emails
            } else {
                appended(v.emails, emails, emails.len() as int)
            };
            EmailListViewV {
                last_refreshed: Some(now),
                emails: all,
                pending_write_ops: if position == 0 {
                    Seq::empty()
                } else {
                    v.pending_write_ops
                },
                thread_counts: if position == 0 {
                    counts
                } else {
                    counts_extended(v.thread_counts, counts, counts.len() as int)
                },
                error: None,
                cursor: cursor_clamped(v.cursor, all.len()),
                ..w
            }
        },
        Err(e) => if position == 0 {
            EmailListViewV { error: Some("Failed to fetch emails: "@ + e), ..w }
        } else {
            EmailListViewV { status_message: Some(with_error("Load more"@, e)), ..w }
        },
    }
}

/// The list and the outbox after the outcome of a change has come, and whether the
/// change was this view's: one that failed is undone, and after most of those that
/// did not the messages are asked for again.
pub open spec fn change_settled(
    v: EmailListViewV,
    o: OutboxV,
    op_id: u64,
    action: EmailMutationAction,
    result: Result<(), Seq<char>>,
) -> (EmailListViewV, OutboxV, bool) {
    match num_lookup(v.pending_write_ops, op_id) {
        Some(op) => {
            let w = EmailListViewV {
                pending_write_ops: num_without(v.pending_write_ops, op_id),
                ..v
            };
            match result {
                Ok(_) => {
                    let r = match op {
                        PendingWriteOpV::Flag { .. } => (w, o),
                        PendingWriteOpV::Seen { .. } => refreshed(
                            w,
                            o,
                            "email_list.seen_mutation_followup"@,
                        ),
                        PendingWriteOpV::Move { .. } => refreshed(
                            w,
                            o,
                            "email_list.move_mutation_followup"@,
                        ),
                    };
                    (r.0, r.1, true)
                },
                Err(e) => (
                    EmailListViewV {
                        status_message: Some(with_error(action_name(action), e)),
                        ..undone(w, op)
                    },
                    o,
                    true,
                ),
            }
        },
        None => (v, o, false),
    }
}

/// The list after what a reply needs has come, and whether it was this view that
/// asked for it.
pub open spec fn reply_data_come(
    v: EmailListViewV,
    id: Seq<char>,
    result: Result<EmailV, Seq<char>>,
) -> (EmailListViewV, bool) {
    match v.pending_reply_request {
        Some((wanted, all)) => if wanted == id {
            let w = EmailListViewV { pending_reply_request: None, ..v };
            (
                match result {
                    Ok(e) => EmailListViewV {
                        pending_compose: Some(reply_draft(e, all, v.reply_from_address)),
                        ..w
                    },
                    Err(e) => EmailListViewV {
                        status_message: Some(
                            with_error(
                                if all {
                                    "Reply all"@
                                } else {
                                    "Reply"@
                                },
                                e,
                            ),
                        ),
                        ..w
                    },
                },
                true,
            )
        } else {
            (v, false)
        },
        None => (v, false),
    }
}

/// What is said of rules that were tried or run.
pub open spec fn rules_message(
    what: Seq<char>,
    mailbox_name: Seq<char>,
    scanned: usize,
    matched: usize,
    actions: usize,
) -> Seq<char> {
    what + mailbox_name + "': scanned "@ + decimal(scanned as nat) + ", matched "@ + decimal(
        matched as nat,
    ) + ", actions "@ + decimal(actions as nat)
}

/// What is said of rules that were tried or run.
pub fn message_of_rules(
    what: &str,
    mailbox_name: &str,
    scanned: usize,
    matched: usize,
    actions: usize,
) -> (r: String)
    ensures
        r@ == rules_message(what@, mailbox_name@, scanned, matched, actions),
{
    let mut s = text3(what, mailbox_name, "': scanned ");
    s.append(dec(scanned as u64).as_str());
    s.append(", matched ");
    s.append(dec(matched as u64).as_str());
    s.append(", actions ");
    s.append(dec(actions as u64).as_str());
    s
}

/// The list after the rules were tried.
pub open spec fn dry_run_come(
    v: EmailListViewV,
    mailbox_name: Seq<char>,
    result: Result<RulesDryRunResultV, Seq<char>>,
) -> EmailListViewV {
    match result {
        Ok(p) => EmailListViewV {
            status_message: Some(
                rules_message(
                    "Rules dry-run in '"@,
                    mailbox_name,
                    p.scanned,
                    p.matched_rules,
                    p.actions,
                ),
            ),
            pending_rules_preview: Some((mailbox_name, p)),
            ..v
        },
        Err(e) => EmailListViewV {
            status_message: Some(with_error("Rules dry-run"@, e)),
            ..v
        },
    }
}

/// The list and the outbox after the rules were run.
pub open spec fn run_come(
    v: EmailListViewV,
    o: OutboxV,
    mailbox_name: Seq<char>,
    result: Result<RulesRunResultV, Seq<char>>,
) -> (EmailListViewV, OutboxV) {
    match result {
        Ok(p) => refreshed(
            EmailListViewV {
                status_message: Some(
                    rules_message(
                        "Rules run in '"@,
                        mailbox_name,
                        p.scanned,
                        p.matched_rules,
                        p.actions,
                    ),
                ),
                ..v
            },
            o,
            "email_list.rules_run_followup"@,
        ),
        Err(e) => (
            EmailListViewV { status_message: Some(with_error("Rules run"@, e)), ..v },
            o,
        ),
    }
}

/// The list after a response, the outbox, and whether the response was for it.
pub open spec fn email_list_response(
    v: EmailListViewV,
    o: OutboxV,
    response: BackendResponseV,
    now: Seq<char>,
) -> (EmailListViewV, OutboxV, bool) {
    match response {
        BackendResponseV::Emails {
            mailbox_id,
            emails,
            total,
            position,
            loaded,
            thread_counts,
        } => if mailbox_id
            == v.mailbox_id {
            (emails_come(v, emails, total, position, loaded, thread_counts, now), o, true)
        } else {
            (v, o, false)
        },
        BackendResponseV::EmailMutation { op_id, action, result, .. } => change_settled(
            v,
            o,
            op_id,
            action,
            result,
        ),
        BackendResponseV::EmailForReply { id, result } => {
            let r = reply_data_come(v, id, result);
            (r.0, o, r.1)
        },
        BackendResponseV::ThreadMarkedRead { result, .. } => if result is Ok {
            let r = refreshed(v, o, "email_list.thread_marked_read"@);
            (r.0, r.1, true)
        } else {
            (v, o, false)
        },
        BackendResponseV::RulesDryRun { mailbox_id, mailbox_name, result } => if mailbox_id
            == v.mailbox_id {
            (dry_run_come(v, mailbox_name, result), o, true)
        } else {
            (v, o, false)
        },
        BackendResponseV::RulesRun { mailbox_id, mailbox_name, result } => if mailbox_id
            == v.mailbox_id {
            let r = run_come(v, o, mailbox_name, result);
            (r.0, r.1, true)
        } else {
            (v, o, false)
        },
        _ => (v, o, false),
    }
}

/// The list after the time for a refresh has come, the outbox, and whether a
/// refresh was asked for.
pub open spec fn email_list_sync(v: EmailListViewV, o: OutboxV) -> (EmailListViewV, OutboxV, bool) {
    if v.loading || v.move_mode || v.search_mode {
        (v, o, false)
    } else {
        let r = refreshed(v, o, "email_list.periodic_sync"@);
        (r.0, r.1, true)
    }
}

// ---------------------------------------------------------------------------
// The screen
// ---------------------------------------------------------------------------

/// How many messages of a thread are read, and how many there are; nothing for a
/// message by itself.
pub open spec fn thread_column(counts: Option<(usize, usize)>) -> Seq<char> {
    match counts {
        Some((unread, total)) => if total > 1 {
            "["@ + decimal(minus(total as int, unread as int) as nat) + "/"@ + decimal(
                total as nat,
            ) + "]"@
        } else {
            ""@
        },
        None => ""@,
    }
}

/// The line of a message.
pub open spec fn email_line(e: EmailV, width: u16, counts: Option<(usize, usize)>) -> Seq<char> {
    let from_width = if minus(width as int, 24) < 20 {
        minus(width as int, 24)
    } else {
        20
    };
    let subject_width = minus(width as int, 23 + from_width + 1);
    " "@ + list_marks(e) + padded(thread_column(counts), 8) + list_date(e) + " "@ + padded(
        truncated(list_sender(e), from_width as nat),
        from_width as nat,
    ) + " "@ + truncated(list_subject(e), subject_width as nat)
}

/// The line of a message.
pub fn format_email(e: &Email, width: u16, counts: Option<(usize, usize)>) -> (r: String)
    ensures
        r@ == email_line(e.deep_view(), width, counts),
{
    let mut column = "".to_owned();
    match counts {
        Some((unread, total)) => {
            if total > 1 {
                column = "[".to_owned();
                column.append(dec(step_up(total, unread) as u64).as_str());
                column.append("/");
                column.append(dec(total as u64).as_str());
                column.append("]");
            }
        },
        None => {},
    }
    let room: usize = rows_below(width, 24);
    let from_width: usize = if room < 20 {
        room
    } else {
        20
    };
    let subject_width: usize = step_up(width as usize, 23 + from_width + 1);
    let mut s = " ".to_owned();
    s.append(marks_in_list(e).as_str());
    s.append(pad(column.as_str(), 8).as_str());
    s.append(date_in_list(e).as_str());
    s.append(" ");
    let from = truncate(sender_in_list(e).as_str(), from_width);
    s.append(pad(from.as_str(), from_width).as_str());
    s.append(" ");
    s.append(truncate(subject_in_list(e).as_str(), subject_width).as_str());
    s
}

/// The terminal after the first `k` rows of messages.
pub open spec fn email_rows(t: TerminalV, v: EmailListViewV, k: nat) -> TerminalV
    decreases k,
{
    if k == 0 {
        t
    } else {
        let i = v.scroll_offset + k - 1;
        message_row(
            email_rows(t, v, (k - 1) as nat),
            (k + 2) as u16,
            email_line(v.emails[i], t.cols, counts_of(v, v.emails[i])),
            i == v.cursor,
            lookup(v.emails[i].keywords, "$seen"@) is None,
        )
    }
}

/// The heading.
pub open spec fn email_list_header(v: EmailListViewV) -> Seq<char> {
    let base = match v.active_search {
        Some(q) => {
            let s = v.mailbox_name + " [search: "@ + q + "]"@;
            match v.total {
                Some(n) => s + " ("@ + decimal(n as nat) + " results)"@,
                None => s,
            }
        },
        None => match v.total {
            Some(n) => v.mailbox_name + " ("@ + decimal(n as nat) + " messages)"@,
            None => v.mailbox_name,
        },
    };
    match v.last_refreshed {
        Some(ts) => base + " (refreshed "@ + ts + ")"@,
        None => base,
    }
}

/// The number of messages that the status gives: the server's, or else that of the
/// messages loaded.
pub open spec fn displayed_total(v: EmailListViewV) -> u32 {
    match v.total {
        Some(n) => n,
        None => v.emails.len() as u32,
    }
}

/// The status.
pub open spec fn email_list_status(v: EmailListViewV) -> Seq<char> {
    if v.search_mode {
        " Search: "@ + v.search_input + "_"@
    } else if v.move_mode {
        picker_status(v.move_cursor, v.mailboxes.len())
    } else if v.loading {
        if v.loading_more {
            " Loading more... | q:back"@
        } else {
            " Loading... | q:back"@
        }
    } else if v.emails.len() == 0 {
        " q:back g:refresh s:search"@
    } else {
        " "@ + decimal(plus_one(v.cursor) as nat) + "/"@ + decimal(displayed_total(v) as nat)
            + " | q:back n/p:nav RET:read g:refresh r:reply R:reply-all e:dry-run E:run-rules a:archive d:delete"@
            + (if in_deleted_folder(v) {
            " D:expire"@
        } else {
            ""@
        }) + " f:flag u:unread m:move s:search"@ + (if v.active_search is Some {
            " Esc:clear-search"@
        } else {
            ""@
        }) + (if more_to_load(v) {
            " l:more"@
        } else {
            ""@
        })
    }
}

/// The terminal after the part between the heading and the status.
pub open spec fn email_list_body(t: TerminalV, v: EmailListViewV) -> TerminalV {
    if v.move_mode {
        picker_shown(t, v.mailboxes, v.move_cursor, 3)
    } else if v.loading && v.emails.len() == 0 {
        row_text(t, 3, "Loading emails..."@)
    } else {
        match v.error {
            Some(e) => row_text(t, 3, e),
            None => if v.emails.len() == 0 {
                row_text(t, 3, "No messages."@)
            } else {
                email_rows(t, v, shown_items(v.scroll_offset, v.emails.len(), t.rows, 4))
            },
        }
    }
}

/// The terminal after the list.
pub open spec fn email_list_shown(t: TerminalV, v: EmailListViewV) -> TerminalV {
    status_line(
        email_list_body(title(t, email_list_header(v)), v),
        with_status(v.status_message, email_list_status(v)),
    )
}

impl EmailListView {
    fn make_query(&self, origin: &str, position: u32) -> (r: BackendCommand)
        ensures
            r.deep_view() == query(self.deep_view(), origin@, position),
    {
        BackendCommand::QueryEmails {
            origin: origin.to_owned(),
            mailbox_id: self.mailbox_id.clone(),
            page_size: self.page_size,
            position,
            search_query: self.active_search.dup(),
            received_after: None,
            received_before: None,
        }
    }

    fn request_refresh(&mut self, origin: &str, out: &mut Outbox)
        ensures
            (final(self).deep_view(), final(out).deep_view()) == refreshed(
                old(self).deep_view(),
                old(out).deep_view(),
                origin@,
            ),
    {
        self.next_query_position = 0;
        self.last_loaded_count = 0;
        self.loading = true;
        self.loading_more = false;
        self.scroll_offset = 0;
        let _ = out.send(self.make_query(origin, 0));
    }

    fn can_load_more(&self) -> (r: bool)
        ensures
            r == more_to_load(self.deep_view()),
    {
        if self.loading || self.emails.len() == 0 {
            return false;
        }
        match self.total {
            Some(total) => short_count(self.emails.len()) < total,
            None => self.last_loaded_count >= self.page_size,
        }
    }

    fn request_load_more(&mut self, out: &mut Outbox)
        ensures
            (final(self).deep_view(), final(out).deep_view()) == more_asked(
                old(self).deep_view(),
                old(out).deep_view(),
            ),
    {
        if self.can_load_more() {
            let cmd = self.make_query("email_list.load_more", self.next_query_position);
            if out.send(cmd) {
                self.loading = true;
                self.loading_more = true;
            } else {
                self.loading_more = false;
                self.status_message = Some(failure("Load more", "sending on a closed channel"));
            }
        }
    }

    fn get_thread_counts(&self, e: &Email) -> (r: Option<(usize, usize)>)
        ensures
            r == counts_of(self.deep_view(), e.deep_view()),
    {
        match &e.thread_id {
            Some(id) => match self.thread_counts.get(id.as_str()) {
                Some(c) => Some(*c),
                None => None,
            },
            None => None,
        }
    }

    fn count_thread(&self, e: &Email) -> (r: usize)
        ensures
            r == thread_total(self.deep_view(), e.deep_view()),
    {
        match self.get_thread_counts(e) {
            Some(c) => c.1,
            None => 1,
        }
    }

    fn open_selected(&mut self, out: &mut Outbox) -> (r: Option<ViewAction>)
        ensures
            (final(self).deep_view(), final(out).deep_view(), r.deep_view()) == opened(
                old(self).deep_view(),
                old(out).deep_view(),
            ),
    {
        if self.cursor >= self.emails.len() {
            return None;
        }
        let e = at(self.emails.as_slice(), self.cursor);
        if self.count_thread(e) > 1 {
            let thread_id = match &e.thread_id {
                Some(id) => id.clone(),
                None => String::new(),
            };
            let view = EmailView::new_thread(
                self.reply_from_address.clone(),
                thread_id,
                self.is_in_deleted_folder(),
                self.mailboxes.dup(),
                self.archive_folder.clone(),
                self.deleted_folder.clone(),
                out,
            );
            Some(ViewAction::Push(AnyView::Email(view)))
        } else {
            let view = self.open_single(out);
            Some(ViewAction::Push(AnyView::Email(view)))
        }
    }

    fn open_thread_list(&mut self, cross_folder: bool, out: &mut Outbox) -> (r: Option<ViewAction>)
        ensures
            (final(self).deep_view(), final(out).deep_view(), r.deep_view()) == thread_listed(
                old(self).deep_view(),
                old(out).deep_view(),
                cross_folder,
            ),
    {
        if self.cursor >= self.emails.len() {
            return None;
        }
        let e = at(self.emails.as_slice(), self.cursor);
        if self.count_thread(e) > 1 || cross_folder {
            let thread_id = match &e.thread_id {
                Some(id) => id.clone(),
                None => String::new(),
            };
            let filter_mailbox_id = if cross_folder {
                None
            } else {
                Some(self.mailbox_id.clone())
            };
            let view = ThreadView::new(
                self.reply_from_address.clone(),
                thread_id,
                subject_in_list(e),
                self.mailboxes.dup(),
                self.archive_folder.clone(),
                self.deleted_folder.clone(),
                self.is_in_deleted_folder(),
                filter_mailbox_id,
                out,
            );
            Some(ViewAction::Push(AnyView::Thread(view)))
        } else {
            let view = self.open_single(out);
            Some(ViewAction::Push(AnyView::Email(view)))
        }
    }

    fn handle_search_key(&mut self, key: Key, out: &mut Outbox)
        ensures
            (final(self).deep_view(), final(out).deep_view()) == search_key(
                old(self).deep_view(),
                old(out).deep_view(),
                key,
            ),
    {
        match key {
            Key::Enter => {
                self.search_mode = false;
                self.active_search = if self.search_input.as_str().is_empty() {
                    None
                } else {
                    Some(self.search_input.clone())
                };
                self.search_input = String::new();
                self.request_refresh("email_list.search_submit", out);
            },
            Key::Escape => {
                self.search_mode = false;
                self.search_input = String::new();
            },
            Key::Backspace => {
                self.search_input = pop_char(&self.search_input);
            },
            Key::Char(c) => {
                self.search_input.push(c);
            },
            _ => {},
        }
    }

    fn handle_move_key(&mut self, key: Key, out: &mut Outbox)
        ensures
            (final(self).deep_view(), final(out).deep_view()) == move_key(
                old(self).deep_view(),
                old(out).deep_view(),
                key,
            ),
    {
        match move_in_picker(key, self.move_cursor, self.mailboxes.len()) {
            Some(c) => {
                self.move_cursor = c;
                return ;
            },
            None => {},
        }
        if key == Key::Escape || key == Key::Char('q') {
            self.move_mode = false;
        } else if key == Key::Enter && self.move_cursor < self.mailboxes.len() {
            let target = at(self.mailboxes.as_slice(), self.move_cursor).id.clone();
            self.move_to(target, "Move", out);
            self.move_mode = false;
        }
    }

    fn handle_cursor_key(&mut self, key: Key, page: usize, out: &mut Outbox) -> (r: bool)
        ensures
            match cursor_key(old(self).deep_view(), old(out).deep_view(), key, page) {
                Some(w) => r && final(self).deep_view() == w.0 && final(out).deep_view() == w.1,
                None => !r && final(self).deep_view() == old(self).deep_view()
                    && final(out).deep_view() == old(out).deep_view(),
            },
    {
        let n: usize = self.emails.len();
        match key {
            Key::Char('n') | Key::Char('j') | Key::Down | Key::ScrollDown => {
                if n > 1 && self.cursor < n - 1 {
                    self.go_to(self.cursor + 1, page);
                } else {
                    self.request_load_more(out);
                }
            },
            Key::Char('p') | Key::Char('k') | Key::Up | Key::ScrollUp => {
                if self.cursor > 0 {
                    self.go_to(self.cursor - 1, page);
                }
            },
            Key::PageDown => {
                if n > 0 {
                    self.go_to(step_page_down(self.cursor, page, n), page);
                    if self.cursor >= n - 1 {
                        self.request_load_more(out);
                    }
                }
            },
            Key::PageUp => {
                self.go_to(step_up(self.cursor, page), page);
            },
            Key::Home => {
                self.go_to(0, page);
            },
            Key::End => {
                if n > 0 {
                    self.go_to(n - 1, page);
                    self.request_load_more(out);
                }
            },
            _ => {
                return false;
            },
        }
        true
    }

    fn ask_reply(&mut self, all: bool, out: &mut Outbox)
        ensures
            (final(self).deep_view(), final(out).deep_view()) == reply_key(
                old(self).deep_view(),
                old(out).deep_view(),
                all,
            ),
    {
        if self.cursor < self.emails.len() {
            let id = at(self.emails.as_slice(), self.cursor).id.clone();
            if out.send(BackendCommand::GetEmailForReply { id: id.clone() }) {
                self.pending_reply_request = Some((id, all));
                self.status_message = Some(
                    if all {
                        "Preparing reply-all draft...".to_owned()
                    } else {
                        "Preparing reply draft...".to_owned()
                    },
                );
            } else {
                self.pending_reply_request = None;
                self.status_message = Some(
                    text2(
                        if all {
                            "Reply all failed to send: "
                        } else {
                            "Reply failed to send: "
                        },
                        "sending on a closed channel",
                    ),
                );
            }
        }
    }

    fn ask_rules(&mut self, run: bool, out: &mut Outbox)
        ensures
            (final(self).deep_view(), final(out).deep_view()) == rules_key(
                old(self).deep_view(),
                old(out).deep_view(),
                run,
            ),
    {
        let mailbox_id = self.mailbox_id.clone();
        let mailbox_name = self.mailbox_name.clone();
        let cmd = if run {
            BackendCommand::RunRulesForMailbox {
                origin: "email_list.key_E_run_rules".to_owned(),
                mailbox_id,
                mailbox_name,
            }
        } else {
            BackendCommand::PreviewRulesForMailbox {
                origin: "email_list.key_e_dry_run".to_owned(),
                mailbox_id,
                mailbox_name,
            }
        };
        self.status_message = Some(
            if out.send(cmd) {
                text3(
                    if run {
                        "Running rules in '"
                    } else {
                        "Running rules dry-run in '"
                    },
                    self.mailbox_name.as_str(),
                    "'",
                )
            } else {
                text2(
                    if run {
                        "Run rules failed to send: "
                    } else {
                        "Rules dry-run failed to send: "
                    },
                    "sending on a closed channel",
                )
            },
        );
    }

    fn handle_change_key(&mut self, key: Key, out: &mut Outbox) -> (r: bool)
        ensures
            match change_key(old(self).deep_view(), old(out).deep_view(), key) {
                Some(w) => r && final(self).deep_view() == w.0 && final(out).deep_view() == w.1,
                None => !r && final(self).deep_view() == old(self).deep_view()
                    && final(out).deep_view() == old(out).deep_view(),
            },
    {
        match key {
            Key::Char('g') => {
                self.request_refresh("email_list.key_g", out);
            },
            Key::Char('R') => {
                self.ask_reply(true, out);
            },
            Key::Char('r') => {
                self.ask_reply(false, out);
            },
            Key::Char('e') => {
                self.ask_rules(false, out);
            },
            Key::Char('E') => {
                self.ask_rules(true, out);
            },
            Key::Char('f') => {
                self.toggle_flag(out);
            },
            Key::Char('u') => {
                self.toggle_seen(out);
            },
            Key::Char('m') => {
                if self.emails.len() > 0 && self.mailboxes.len() > 0 {
                    self.move_mode = true;
                    self.move_cursor = 0;
                }
            },
            Key::Char('a') => {
                let folder = self.archive_folder.clone();
                self.move_selected_to_folder(folder.as_str(), "Archive", out);
            },
            Key::Char('d') => {
                let folder = self.deleted_folder.clone();
                self.move_selected_to_folder(folder.as_str(), "Delete", out);
            },
            Key::Char('D') => {
                self.expire_selected_now(out);
            },
            Key::Char('s') => {
                self.search_mode = true;
                self.search_input = String::new();
            },
            Key::Char('l') => {
                self.request_load_more(out);
            },
            Key::Escape => {
                if self.active_search.is_some() {
                    self.active_search = None;
                    self.request_refresh("email_list.clear_search_escape", out);
                }
            },
            Key::MouseClick { row, .. } => {
                match hit_row(row, self.scroll_offset, self.emails.len()) {
                    Some(c) => {
                        self.cursor = c;
                        self.pending_click = true;
                    },
                    None => {},
                }
            },
            _ => {
                return false;
            },
        }
        true
    }

    /// Takes a key.
    pub fn handle_key(&mut self, key: Key, term_rows: u16, out: &mut Outbox) -> (r: ViewAction)
        ensures
            (final(self).deep_view(), final(out).deep_view(), r.deep_view()) == email_list_key(
                old(self).deep_view(),
                old(out).deep_view(),
                key,
                term_rows,
            ),
    {
        if self.search_mode {
            self.handle_search_key(key, out);
            return ViewAction::Continue;
        }
        if self.move_mode {
            self.handle_move_key(key, out);
            return ViewAction::Continue;
        }
        if self.handle_cursor_key(key, rows_below(term_rows, 4), out) {
            return ViewAction::Continue;
        }
        if self.handle_change_key(key, out) {
            return ViewAction::Continue;
        }
        match key {
            Key::Char('q') => ViewAction::Pop,
            Key::Enter => action_or_continue(self.open_selected(out)),
            Key::Char('t') => action_or_continue(self.open_thread_list(false, out)),
            Key::AltEnter => action_or_continue(self.open_thread_list(false, out)),
            Key::Char('T') => action_or_continue(self.open_thread_list(true, out)),
            Key::Char('c') => ViewAction::Compose(
                build_compose_draft(self.reply_from_address.as_str()),
            ),
            Key::Char('?') => ViewAction::Push(AnyView::Help(HelpView::new())),
            _ => ViewAction::Continue,
        }
    }

    /// Says what is to be done after what happened before.
    pub fn take_pending_action(&mut self, out: &mut Outbox) -> (r: Option<ViewAction>)
        ensures
            (final(self).deep_view(), final(out).deep_view(), r.deep_view())
                == email_list_pending(old(self).deep_view(), old(out).deep_view()),
    {
        match &self.pending_compose {
            Some(draft) => {
                let action = ViewAction::Compose(draft.clone());
                self.pending_compose = None;
                return Some(action);
            },
            None => {},
        }
        match &self.pending_rules_preview {
            Some((mailbox_name, preview)) => {
                let action = ViewAction::ShowRules {
                    mailbox_name: mailbox_name.clone(),
                    preview: preview.dup(),
                };
                self.pending_rules_preview = None;
                return Some(action);
            },
            None => {},
        }
        if self.pending_click {
            self.pending_click = false;
            return self.open_selected(out);
        }
        None
    }

    fn append_emails(&mut self, others: &Vec<Email>)
        ensures
            final(self).deep_view() == (EmailListViewV {
                emails: appended(
                    old(self).deep_view().emails,
                    others.deep_view(),
                    others.deep_view().len() as int,
                ),
                ..old(self).deep_view()
            }),
    {
        let ghost v = self.deep_view();
        let ghost ov = others.deep_view();
        let mut i: usize = 0;
        while i < others.len()
            invariant
                i <= others@.len(),
                ov == others.deep_view(),
                self.deep_view() == (EmailListViewV {
                    emails: appended(v.emails, ov, i as int),
                    ..v
                }),
            decreases others@.len() - i,
        {
            let e = at(others.as_slice(), i);
            if email_position(&self.emails, e.id.as_str()) >= self.emails.len() {
                put(&mut self.emails, e.dup());
            }
            i = i + 1;
        }
    }

    fn extend_counts(&mut self, others: &StrMap<(usize, usize)>)
        ensures
            final(self).deep_view() == (EmailListViewV {
                thread_counts: counts_extended(
                    old(self).deep_view().thread_counts,
                    others.deep_view(),
                    others.deep_view().len() as int,
                ),
                ..old(self).deep_view()
            }),
    {
        let ghost v = self.deep_view();
        let ghost ov = others.deep_view();
        let n: usize = others.len();
        let mut i: usize = 0;
        while i < n
            invariant
                i <= n,
                n == ov.len(),
                ov == others.deep_view(),
                self.deep_view() == (EmailListViewV {
                    thread_counts: counts_extended(v.thread_counts, ov, i as int),
                    ..v
                }),
            decreases n - i,
        {
            self.thread_counts.insert(others.key_at(i).to_owned(), *others.value_at(i));
            i = i + 1;
        }
    }

    fn take_emails(
        &mut self,
        result: &Result<Vec<Email>, String>,
        total: Option<u32>,
        position: u32,
        loaded: u32,
        counts: &StrMap<(usize, usize)>,
        now: &str,
    )
        ensures
            final(self).deep_view() == emails_come(
                old(self).deep_view(),
                result_view(*result),
                total,
                position,
                loaded,
                counts.deep_view(),
                now@,
            ),
    {
        self.loading = false;
        self.loading_more = false;
        self.total = total;
        self.last_loaded_count = loaded;
        self.next_query_position = position.saturating_add(loaded);
        match result {
            Ok(emails) => {
                self.last_refreshed = Some(now.to_owned());
                if position == 0 {
                    self.emails = emails.dup();
                    let none: Vec<(u64, PendingWriteOp)> = no_items();
                    self.pending_write_ops = none;
                    self.thread_counts = counts.dup();
                } else {
                    self.extend_counts(counts);
                    self.append_emails(emails);
                }
                self.error = None;
                self.cursor = clamp_cursor(self.cursor, self.emails.len());
            },
            Err(e) => {
                if position == 0 {
                    self.error = Some(text2("Failed to fetch emails: ", e.as_str()));
                } else {
                    self.status_message = Some(failure("Load more", e.as_str()));
                }
            },
        }
    }

    fn settle_change(
        &mut self,
        op_id: u64,
        action: EmailMutationAction,
        result: &Result<(), String>,
        out: &mut Outbox,
    ) -> (r: bool)
        ensures
            (final(self).deep_view(), final(out).deep_view(), r) == change_settled(
                old(self).deep_view(),
                old(out).deep_view(),
                op_id,
                action,
                result_view(*result),
            ),
    {
        let ghost before = self.deep_view();
        let taken = num_take(&mut self.pending_write_ops, op_id);
        assert(self.deep_view() == EmailListViewV {
            pending_write_ops: num_without(before.pending_write_ops, op_id),
            ..before
        });
        match taken {
            Some(op) => {
                match result {
                    Ok(_) => match op {
                        PendingWriteOp::Flag { .. } => {},
                        PendingWriteOp::Seen { .. } => {
                            self.request_refresh("email_list.seen_mutation_followup", out);
                        },
                        PendingWriteOp::Move { .. } => {
                            self.request_refresh("email_list.move_mutation_followup", out);
                        },
                    },
                    Err(e) => {
                        self.rollback_pending_write(op);
                        self.status_message = Some(failure(name_of_action(action), e.as_str()));
                    },
                }
                true
            },
            None => false,
        }
    }

    fn take_reply_data(&mut self, id: &String, result: &Result<Email, String>) -> (r: bool)
        ensures
            (final(self).deep_view(), r) == reply_data_come(
                old(self).deep_view(),
                id@,
                result_view(*result),
            ),
    {
        let all = match &self.pending_reply_request {
            Some((wanted, all)) => {
                if same(wanted.as_str(), id.as_str()) {
                    *all
                } else {
                    return false;
                }
            },
            None => {
                return false;
            },
        };
        self.pending_reply_request = None;
        match result {
            Ok(e) => {
                self.pending_compose = Some(
                    build_reply_draft(e, all, self.reply_from_address.as_str()),
                );
            },
            Err(e) => {
                self.status_message = Some(
                    failure(
                        if all {
                            "Reply all"
                        } else {
                            "Reply"
                        },
                        e.as_str(),
                    ),
                );
            },
        }
        true
    }

    fn take_dry_run(&mut self, mailbox_name: &String, result: &Result<RulesDryRunResult, String>)
        ensures
            final(self).deep_view() == dry_run_come(
                old(self).deep_view(),
                mailbox_name@,
                result_view(*result),
            ),
    {
        match result {
            Ok(p) => {
                self.status_message = Some(
                    message_of_rules(
                        "Rules dry-run in '",
                        mailbox_name.as_str(),
                        p.scanned,
                        p.matched_rules,
                        p.actions,
                    ),
                );
                self.pending_rules_preview = Some((mailbox_name.clone(), p.dup()));
            },
            Err(e) => {
                self.status_message = Some(failure("Rules dry-run", e.as_str()));
            },
        }
    }

    fn take_run(
        &mut self,
        mailbox_name: &String,
        result: &Result<RulesRunResult, String>,
        out: &mut Outbox,
    )
        ensures
            (final(self).deep_view(), final(out).deep_view()) == run_come(
                old(self).deep_view(),
                old(out).deep_view(),
                mailbox_name@,
                result_view(*result),
            ),
    {
        match result {
            Ok(p) => {
                self.status_message = Some(
                    message_of_rules(
                        "Rules run in '",
                        mailbox_name.as_str(),
                        p.scanned,
                        p.matched_rules,
                        p.actions,
                    ),
                );
                self.request_refresh("email_list.rules_run_followup", out);
            },
            Err(e) => {
                self.status_message = Some(failure("Rules run", e.as_str()));
            },
        }
    }

    /// Takes a response; says whether it was for this view.
    pub fn on_response(&mut self, response: &BackendResponse, now: &str, out: &mut Outbox) -> (r:
        bool)
        ensures
            (final(self).deep_view(), final(out).deep_view(), r) == email_list_response(
                old(self).deep_view(),
                old(out).deep_view(),
                response.deep_view(),
                now@,
            ),
    {
        match response {
            BackendResponse::Emails {
                mailbox_id,
                emails,
                total,
                position,
                loaded,
                thread_counts,
            } => {
                if same(mailbox_id.as_str(), self.mailbox_id.as_str()) {
                    self.take_emails(emails, *total, *position, *loaded, thread_counts, now);
                    true
                } else {
                    false
                }
            },
            BackendResponse::EmailMutation { op_id, action, result, .. } => self.settle_change(
                *op_id,
                *action,
                result,
                out,
            ),
            BackendResponse::EmailForReply { id, result } => self.take_reply_data(id, result),
            BackendResponse::ThreadMarkedRead { result, .. } => {
                if result.is_ok() {
                    self.request_refresh("email_list.thread_marked_read", out);
                    true
                } else {
                    false
                }
            },
            BackendResponse::RulesDryRun { mailbox_id, mailbox_name, result } => {
                if same(mailbox_id.as_str(), self.mailbox_id.as_str()) {
                    self.take_dry_run(mailbox_name, result);
                    true
                } else {
                    false
                }
            },
            BackendResponse::RulesRun { mailbox_id, mailbox_name, result } => {
                if same(mailbox_id.as_str(), self.mailbox_id.as_str()) {
                    self.take_run(mailbox_name, result, out);
                    true
                } else {
                    false
                }
            },
            _ => false,
        }
    }

    /// Asks for a refresh, as is due from time to time; says whether it did.
    pub fn trigger_periodic_sync(&mut self, out: &mut Outbox) -> (r: bool)
        ensures
            (final(self).deep_view(), final(out).deep_view(), r) == email_list_sync(
                old(self).deep_view(),
                old(out).deep_view(),
            ),
    {
        if self.loading || self.move_mode || self.search_mode {
            return false;
        }
        self.request_refresh("email_list.periodic_sync", out);
        true
    }

    fn header(&self) -> (r: String)
        ensures
            r@ == email_list_header(self.deep_view()),
    {
        let mut s = self.mailbox_name.clone();
        match &self.active_search {
            Some(q) => {
                s.append(" [search: ");
                s.append(q.as_str());
                s.append("]");
                match self.total {
                    Some(n) => {
                        s.append(" (");
                        s.append(dec(n as u64).as_str());
                        s.append(" results)");
                    },
                    None => {},
                }
            },
            None => match self.total {
                Some(n) => {
                    s.append(" (");
                    s.append(dec(n as u64).as_str());
                    s.append(" messages)");
                },
                None => {},
            },
        }
        match &self.last_refreshed {
            Some(ts) => {
                s.append(" (refreshed ");
                s.append(ts.as_str());
                s.append(")");
            },
            None => {},
        }
        s
    }

    /// The number of messages that the status gives.
    pub fn shown_total(&self) -> (r: u32)
        ensures
            r == displayed_total(self.deep_view()),
    {
        match self.total {
            Some(n) => n,
            None => short_count(self.emails.len()),
        }
    }

    /// The status.
    pub fn status(&self) -> (r: String)
        ensures
            r@ == email_list_status(self.deep_view()),
    {
        if self.search_mode {
            text3(" Search: ", self.search_input.as_str(), "_")
        } else if self.move_mode {
            picker_text(self.move_cursor, self.mailboxes.len())
        } else if self.loading {
            if self.loading_more {
                " Loading more... | q:back".to_owned()
            } else {
                " Loading... | q:back".to_owned()
            }
        } else if self.emails.len() == 0 {
            " q:back g:refresh s:search".to_owned()
        } else {
            let mut s = " ".to_owned();
            s.append(dec(self.cursor.saturating_add(1) as u64).as_str());
            s.append("/");
            s.append(dec(self.shown_total() as u64).as_str());
            s.append(
                " | q:back n/p:nav RET:read g:refresh r:reply R:reply-all e:dry-run E:run-rules a:archive d:delete",
            );
            s.append(
                if self.is_in_deleted_folder() {
                    " D:expire"
                } else {
                    ""
                },
            );
            s.append(" f:flag u:unread m:move s:search");
            s.append(
                if self.active_search.is_some() {
                    " Esc:clear-search"
                } else {
                    ""
                },
            );
            s.append(
                if self.can_load_more() {
                    " l:more"
                } else {
                    ""
                },
            );
            s
        }
    }

    #[verifier::spinoff_prover]
    fn render_rows(&self, term: &mut Terminal)
        ensures
            ({
                let v = self.deep_view();
                let t = old(term).deep_view();
                final(term).deep_view() == email_rows(
                    t,
                    v,
                    shown_items(v.scroll_offset, v.emails.len(), t.rows, 4),
                )
            }),
    {
        let ghost v = self.deep_view();
        let ghost t = term.deep_view();
        let n: u16 = count_items(self.scroll_offset, self.emails.len(), term.rows, 4);
        let mut i: u16 = 0;
        while i < n
            invariant
                i <= n,
                n + 4 <= u16::MAX || n == 0,
                v == self.deep_view(),
                self.emails@.len() <= usize::MAX,
                n == 0 || self.scroll_offset + n <= self.emails@.len(),
                term.deep_view() == email_rows(t, v, i as nat),
                term.cols == t.cols,
            decreases n - i,
        {
            let at_row: usize = self.scroll_offset + i as usize;
            let e = at(self.emails.as_slice(), at_row);
            i = i + 1;
            let line = format_email(e, term.cols, self.get_thread_counts(e));
            let unread = !e.keywords.contains_key("$seen");
            render_message_row(term, i + 2, line.as_str(), at_row == self.cursor, unread);
        }
    }

    /// Shows the list.
    pub fn render(&self, term: &mut Terminal)
        ensures
            final(term).deep_view() == email_list_shown(old(term).deep_view(), self.deep_view()),
    {
        term.write_title(self.header().as_str());
        if self.move_mode {
            render_picker(term, &self.mailboxes, self.move_cursor, 3);
        } else if self.loading && self.emails.len() == 0 {
            term.write_row(3, "Loading emails...");
        } else {
            match &self.error {
                Some(e) => {
                    term.write_row(3, e.as_str());
                },
                None => {
                    if self.emails.len() == 0 {
                        term.write_row(3, "No messages.");
                    } else {
                        self.render_rows(term);
                    }
                },
            }
        }
        term.write_status(status_with(&self.status_message, self.status()).as_str());
    }
}

// ---------------------------------------------------------------------------
// Laws
// ---------------------------------------------------------------------------

/// No key moves the cursor off the list.
pub proof fn law_key_keeps_cursor(v: EmailListViewV, o: OutboxV, key: Key, rows: u16)
    requires
        cursor_fits(v),
        v.emails.len() <= usize::MAX,
    ensures
        cursor_fits(email_list_key(v, o, key, rows).0),
{
    broadcast use lemma_mark_keeps_length;

}

/// Whether the numbers of the changes whose outcome is not known are distinct and
/// below the next one to be given.
pub open spec fn pending_ok(v: EmailListViewV) -> bool {
    numbers_ok(v.pending_write_ops, v.next_write_op_id)
}

broadcast proof fn lemma_marked_numbers(
    v: EmailListViewV,
    o: OutboxV,
    id: Seq<char>,
    word: Seq<char>,
    on: bool,
    op: PendingWriteOpV,
    cmd: BackendCommandV,
    label: Seq<char>,
)
    requires
        numbers_distinct(v.pending_write_ops),
    ensures
        numbers_distinct(
            (#[trigger] marked(v, o, id, word, on, op, cmd, label).0).pending_write_ops,
        ),
        pending_ok(v) && v.next_write_op_id < u64::MAX ==> pending_ok(
            marked(v, o, id, word, on, op, cmd, label).0,
        ),
{
    lemma_numbers_stay_distinct(v.pending_write_ops, v.next_write_op_id, op);
    if pending_ok(v) && v.next_write_op_id < u64::MAX {
        lemma_number_given(v.pending_write_ops, v.next_write_op_id, op);
        let given = num_with(v.pending_write_ops, v.next_write_op_id, op);
        lemma_number_taken(given, next_id(v.next_write_op_id), v.next_write_op_id);
    }
}

broadcast proof fn lemma_taken_away_numbers(
    v: EmailListViewV,
    o: OutboxV,
    cmd: BackendCommandV,
    label: Seq<char>,
)
    requires
        numbers_distinct(v.pending_write_ops),
    ensures
        numbers_distinct((#[trigger] taken_away(v, o, cmd, label).0).pending_write_ops),
        pending_ok(v) && v.next_write_op_id < u64::MAX ==> pending_ok(
            taken_away(v, o, cmd, label).0,
        ),
{
    let op = PendingWriteOpV::Move { email: v.emails[v.cursor as int], from_index: v.cursor };
    lemma_numbers_stay_distinct(v.pending_write_ops, v.next_write_op_id, op);
    if pending_ok(v) && v.next_write_op_id < u64::MAX {
        lemma_number_given(v.pending_write_ops, v.next_write_op_id, op);
        let given = num_with(v.pending_write_ops, v.next_write_op_id, op);
        lemma_number_taken(given, next_id(v.next_write_op_id), v.next_write_op_id);
    }
}

/// No key leaves two changes under the same number, nor, until the numbers are used up,
/// one under a number that is still to be given.
#[verifier::spinoff_prover]
#[verifier::rlimit(60)]
pub proof fn law_key_numbers_are_distinct(v: EmailListViewV, o: OutboxV, key: Key, rows: u16)
    requires
        numbers_distinct(v.pending_write_ops),
    ensures
        numbers_distinct(email_list_key(v, o, key, rows).0.pending_write_ops),
        pending_ok(v) && v.next_write_op_id < u64::MAX ==> pending_ok(
            email_list_key(v, o, key, rows).0,
        ),
{
    broadcast use lemma_marked_numbers, lemma_taken_away_numbers;

}

/// No response leaves two changes under the same number.
pub proof fn law_response_numbers_are_distinct(
    v: EmailListViewV,
    o: OutboxV,
    response: BackendResponseV,
    now: Seq<char>,
)
    requires
        pending_ok(v),
    ensures
        pending_ok(email_list_response(v, o, response, now).0),
{
    match response {
        BackendResponseV::EmailMutation { op_id, .. } => {
            lemma_number_taken(v.pending_write_ops, v.next_write_op_id, op_id);
        },
        _ => {},
    }
}

/// Whether a key asks for a change of the selected message.
pub open spec fn changing_key(key: Key) -> bool {
    key == Key::Char('f') || key == Key::Char('u') || key == Key::Char('a') || key == Key::Char('d')
        || key == Key::Char('D')
}

/// A flag, a reading mark, an archiving, a deletion or an expiry that the server
/// refuses is undone: the list holds the same messages in the same order, the cursor
/// is where it was, nothing stays pending of the change, and the reason is told.
pub proof fn law_refused_change_is_undone(
    v: EmailListViewV,
    o: OutboxV,
    key: Key,
    rows: u16,
    id: Seq<char>,
    action: EmailMutationAction,
    e: Seq<char>,
    now: Seq<char>,
)
    requires
        !v.search_mode,
        !v.move_mode,
        ids_distinct(v.emails),
        forall|i: int| 0 <= i < v.emails.len() ==> keywords_true(#[trigger] v.emails[i]),
        v.cursor < v.emails.len() <= usize::MAX,
        v.total != Some(0u32),
        o.open,
        numbers_distinct(v.pending_write_ops),
        changing_key(key),
        email_list_key(v, o, key, rows).1.sent.len() > o.sent.len(),
    ensures
        ({
            let (w, sent, _) = email_list_key(v, o, key, rows);
            let refusal = BackendResponseV::EmailMutation {
                op_id: v.next_write_op_id,
                id,
                action,
                result: Err(e),
            };
            let (after, _, told) = email_list_response(w, sent, refusal, now);
            &&& told
            &&& same_emails(after.emails, v.emails)
            &&& after.cursor == v.cursor
            &&& after.total == v.total
            &&& num_lookup(after.pending_write_ops, v.next_write_op_id) is None
            &&& num_lookup(v.pending_write_ops, v.next_write_op_id) is None
                ==> after.pending_write_ops == v.pending_write_ops
            &&& after.status_message == Some(with_error(action_name(action), e))
        }),
{
    let c = v.cursor as int;
    let m = v.emails[c];
    let n = v.next_write_op_id;
    let flag = PendingWriteOpV::Flag {
        email_id: m.id,
        old_flagged: lookup(m.keywords, "$flagged"@) is Some,
    };
    let seen = PendingWriteOpV::Seen {
        email_id: m.id,
        old_seen: lookup(m.keywords, "$seen"@) is Some,
    };
    let away = PendingWriteOpV::Move { email: m, from_index: v.cursor };
    law_num_put_then_take(v.pending_write_ops, n, flag);
    law_num_put_then_take(v.pending_write_ops, n, seen);
    law_num_put_then_take(v.pending_write_ops, n, away);
    lemma_marks_and_back(v.emails, c, "$flagged"@);
    lemma_marks_and_back(v.emails, c, "$seen"@);
    assert(v.emails.remove(c).insert(c, m) =~= v.emails);
}

/// Whatever the backend answers, the cursor stays on a message, if there is one.
#[verifier::spinoff_prover]
#[verifier::rlimit(30)]
pub proof fn law_response_keeps_cursor(
    v: EmailListViewV,
    o: OutboxV,
    response: BackendResponseV,
    now: Seq<char>,
)
    requires
        cursor_fits(v),
        v.emails.len() <= usize::MAX,
        email_list_response(v, o, response, now).0.emails.len() <= usize::MAX,
    ensures
        cursor_fits(email_list_response(v, o, response, now).0),
{
    broadcast use lemma_mark_keeps_length;

}

proof fn lemma_absent(s: Seq<EmailV>, id: Seq<char>, i: int)
    requires
        0 <= i,
        email_index(s, id, i) >= s.len(),
    ensures
        forall|j: int| i <= j < s.len() ==> (#[trigger] s[j]).id != id,
    decreases s.len() - i,
{
    if i < s.len() {
        lemma_absent(s, id, i + 1);
    }
}

/// Loading more keeps the messages where they are and lists none twice.
pub proof fn law_no_message_is_listed_twice(emails: Seq<EmailV>, others: Seq<EmailV>, k: int)
    requires
        ids_distinct(emails),
    ensures
        ids_distinct(appended(emails, others, k)),
        emails.is_prefix_of(appended(emails, others, k)),
    decreases k,
{
    if k > 0 {
        law_no_message_is_listed_twice(emails, others, k - 1);
        let before = appended(emails, others, k - 1);
        let e = others[k - 1];
        if email_index(before, e.id, 0) >= before.len() {
            lemma_absent(before, e.id, 0);
        }
    }
}

/// No key destroys a message outside the folder for deleted ones, and none moves
/// or destroys a whole thread.
pub proof fn law_keys_send_single_messages(
    v: EmailListViewV,
    o: OutboxV,
    key: Key,
    rows: u16,
    i: int,
)
    requires
        o.sent.len() <= i < email_list_key(v, o, key, rows).1.sent.len(),
    ensures
        ({
            let cmd = email_list_key(v, o, key, rows).1.sent[i];
            &&& !(cmd is MoveThread)
            &&& !(cmd is DestroyThread)
            &&& cmd is DestroyEmail ==> in_deleted_folder(v)
        }),
{
}

} // verus!
