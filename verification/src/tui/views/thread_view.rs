//! The messages of a thread.

use vstd::prelude::*;

use crate::backend::queue::{next_generated_op_id, next_id};
use crate::backend::{
    BackendCommand, BackendCommandV, BackendResponse, BackendResponseV, EmailMutationAction,
};
use crate::compose::{build_compose_draft, compose_draft};
use crate::data::{
    at, law_num_put_then_take, lemma_number_given, lemma_number_taken, lemma_numbers_stay_distinct,
    lookup, no_items, num_lookup, num_put, num_take, num_with, num_without, numbers_distinct,
    numbers_ok, put, result_view, Dup,
};
use crate::jmap::types::{Email, EmailV, Mailbox, MailboxV};
use crate::rules::{resolve_mailbox_id, resolved_mailbox};
use crate::text::{byte_len, count_bytes, dec, decimal, same};
use crate::tui::input::Key;
use crate::tui::layout::{pad, padded, truncate, truncated};
use crate::tui::screen::{
    clipped, in_bold, moved, plain, row_text, selected, status_line, title, Terminal, TerminalV,
};
use crate::tui::views::email_view::{
    blank_email_view, make_seen_command, no_expiry, seen_command, unresolved, unresolved_message,
    EmailView, EmailViewV,
};
use crate::tui::views::help::{help_view, HelpView};
use crate::tui::views::{
    action_name, back_index, clamp_cursor, clicked_row, closed_channel, count_items,
    cursor_after_removal, cursor_back, cursor_clamped, date_in_list, failure, hit_row, ids_distinct,
    keywords_true, lemma_mark_keeps_length, lemma_marks_and_back, list_date, list_marks,
    list_sender, list_subject, mark_in_list, marks_in_list, minus, name_of_action, page_down,
    page_rows, plus_one, put_back, rows_below, same_emails, scroll_to, scrolled, sender_in_list,
    sent_to, shown_items, status_with, step_page_down, step_up, subject_in_list, take_out, text2,
    with_error, with_mark, with_status, AnyView, AnyViewV, Outbox, OutboxV, PendingWriteOp,
    PendingWriteOpV, ViewAction, ViewActionV,
};

verus! {

broadcast use vstd::seq_lib::group_seq_properties;

/// The messages of a thread: those of one mailbox, or those of all.
#[derive(Debug)]
pub struct ThreadView {
    pub reply_from_address: String,
    pub thread_id: String,
    pub subject: String,
    pub emails: Vec<Email>,
    pub cursor: usize,
    pub loading: bool,
    pub error: Option<String>,
    pub scroll_offset: usize,
    pub pending_click: bool,
    pub status_message: Option<String>,
    pub next_write_op_id: u64,
    pub pending_write_ops: Vec<(u64, PendingWriteOp)>,
    pub mailboxes: Vec<Mailbox>,
    pub archive_folder: String,
    pub deleted_folder: String,
    pub can_expire_now: bool,
    pub filter_mailbox_id: Option<String>,
}

/// The contents of a `ThreadView`.
pub struct ThreadViewV {
    pub reply_from_address: Seq<char>,
    pub thread_id: Seq<char>,
    pub subject: Seq<char>,
    pub emails: Seq<EmailV>,
    pub cursor: usize,
    pub loading: bool,
    pub error: Option<Seq<char>>,
    pub scroll_offset: usize,
    pub pending_click: bool,
    pub status_message: Option<Seq<char>>,
    pub next_write_op_id: u64,
    pub pending_write_ops: Seq<(u64, PendingWriteOpV)>,
    pub mailboxes: Seq<MailboxV>,
    pub archive_folder: Seq<char>,
    pub deleted_folder: Seq<char>,
    pub can_expire_now: bool,
    pub filter_mailbox_id: Option<Seq<char>>,
}

impl DeepView for ThreadView {
    type V = ThreadViewV;

    open spec fn deep_view(&self) -> ThreadViewV {
        ThreadViewV {
            reply_from_address: self.reply_from_address@,
            thread_id: self.thread_id@,
            subject: self.subject@,
            emails: self.emails.deep_view(),
            cursor: self.cursor,
            loading: self.loading,
            error: self.error.deep_view(),
            scroll_offset: self.scroll_offset,
            pending_click: self.pending_click,
            status_message: self.status_message.deep_view(),
            next_write_op_id: self.next_write_op_id,
            pending_write_ops: self.pending_write_ops.deep_view(),
            mailboxes: self.mailboxes.deep_view(),
            archive_folder: self.archive_folder@,
            deleted_folder: self.deleted_folder@,
            can_expire_now: self.can_expire_now,
            filter_mailbox_id: self.filter_mailbox_id.deep_view(),
        }
    }
}

// ---------------------------------------------------------------------------
// Changes
// ---------------------------------------------------------------------------

/// The list with a keyword of a message set or not.
pub open spec fn with_mark_on(
    v: ThreadViewV,
    id: Seq<char>,
    word: Seq<char>,
    on: bool,
) -> ThreadViewV {
    ThreadViewV { emails: with_mark(v.emails, id, word, on), ..v }
}

/// The list after a change whose outcome is not known is undone.
pub open spec fn undone(v: ThreadViewV, op: PendingWriteOpV) -> ThreadViewV {
    match op {
        PendingWriteOpV::Flag { email_id, old_flagged } => with_mark_on(
            v,
            email_id,
            "$flagged"@,
            old_flagged,
        ),
        PendingWriteOpV::Seen { email_id, old_seen } => with_mark_on(
            v,
            email_id,
            "$seen"@,
            old_seen,
        ),
        PendingWriteOpV::Move { email, from_index } => {
            let i = back_index(from_index, v.emails.len());
            ThreadViewV {
                emails: v.emails.insert(i as int, email),
                cursor: i,
                ..v
            }
        },
    }
}

/// The list once a change is on its way.
pub open spec fn started(v: ThreadViewV, op: PendingWriteOpV) -> ThreadViewV {
    ThreadViewV {
        next_write_op_id: next_id(v.next_write_op_id),
        pending_write_ops: num_with(v.pending_write_ops, v.next_write_op_id, op),
        ..v
    }
}

/// The list after a change that could not be sent.
pub open spec fn unsent(
    v: ThreadViewV,
    op_id: u64,
    op: PendingWriteOpV,
    label: Seq<char>,
) -> ThreadViewV {
    let w = ThreadViewV { pending_write_ops: num_without(v.pending_write_ops, op_id), ..v };
    ThreadViewV {
        status_message: Some(with_error(label, closed_channel())),
        ..undone(w, op)
    }
}

/// The list and the outbox after a change of a keyword: the change is shown at
/// once, and undone where it cannot be sent.
pub open spec fn marked(
    v: ThreadViewV,
    o: OutboxV,
    id: Seq<char>,
    word: Seq<char>,
    on: bool,
    op: PendingWriteOpV,
    cmd: BackendCommandV,
    label: Seq<char>,
) -> (ThreadViewV, OutboxV) {
    let w = with_mark_on(started(v, op), id, word, on);
    if o.open {
        (w, sent_to(o, cmd))
    } else {
        (unsent(w, v.next_write_op_id, op, label), o)
    }
}

/// The list and the outbox after the key that flags the selected message or takes
/// the flag away.
pub open spec fn flag_toggled(v: ThreadViewV, o: OutboxV) -> (ThreadViewV, OutboxV) {
    if v.cursor < v.emails.len() {
        let e = v.emails[v.cursor as int];
        let old = lookup(e.keywords, "$flagged"@) is Some;
        marked(
            v,
            o,
            e.id,
            "$flagged"@,
            !old,
            PendingWriteOpV::Flag { email_id: e.id, old_flagged: old },
            BackendCommandV::SetEmailFlagged {
                op_id: v.next_write_op_id,
                id: e.id,
                flagged: !old,
            },
            "Flag update"@,
        )
    } else {
        (v, o)
    }
}

/// The list and the outbox after a message is marked as read or as unread.
pub open spec fn seen_set(
    v: ThreadViewV,
    o: OutboxV,
    seen: bool,
    label: Seq<char>,
) -> (ThreadViewV, OutboxV) {
    let e = v.emails[v.cursor as int];
    marked(
        v,
        o,
        e.id,
        "$seen"@,
        seen,
        PendingWriteOpV::Seen { email_id: e.id, old_seen: !seen },
        seen_command(v.next_write_op_id, e.id, seen),
        label,
    )
}

/// The list and the outbox after the key that marks the selected message as read or
/// as unread.
pub open spec fn seen_toggled(v: ThreadViewV, o: OutboxV) -> (ThreadViewV, OutboxV) {
    if v.cursor < v.emails.len() {
        let e = v.emails[v.cursor as int];
        seen_set(v, o, lookup(e.keywords, "$seen"@) is None, "Read state update"@)
    } else {
        (v, o)
    }
}

/// The list and the outbox after a command that takes the selected message away:
/// it leaves the list at once, and comes back where the command cannot be sent.
pub open spec fn taken_away(v: ThreadViewV, o: OutboxV, cmd: BackendCommandV, label: Seq<char>) -> (
    ThreadViewV,
    OutboxV,
) {
    let op = PendingWriteOpV::Move {
        email: v.emails[v.cursor as int],
        from_index: v.cursor,
    };
    let w = ThreadViewV {
        emails: v.emails.remove(v.cursor as int),
        cursor: cursor_after_removal(v.cursor, (v.emails.len() - 1) as nat),
        ..started(v, op)
    };
    if o.open {
        (w, sent_to(o, cmd))
    } else {
        (unsent(w, v.next_write_op_id, op, label), o)
    }
}

/// The list and the outbox after the selected message is moved to a mailbox.
pub open spec fn moved_to(v: ThreadViewV, o: OutboxV, target: Seq<char>, label: Seq<char>) -> (
    ThreadViewV,
    OutboxV,
) {
    if v.cursor < v.emails.len() {
        taken_away(
            v,
            o,
            BackendCommandV::MoveEmail {
                op_id: v.next_write_op_id,
                id: v.emails[v.cursor as int].id,
                to_mailbox_id: target,
            },
            label,
        )
    } else {
        (v, o)
    }
}

/// The list and the outbox after the selected message is moved to a folder.
pub open spec fn moved_to_folder(
    v: ThreadViewV,
    o: OutboxV,
    folder: Seq<char>,
    label: Seq<char>,
) -> (
    ThreadViewV,
    OutboxV,
) {
    match resolved_mailbox(folder, v.mailboxes) {
        Some(target) => moved_to(v, o, target, label),
        None => (ThreadViewV { status_message: Some(unresolved(label, folder)), ..v }, o),
    }
}

/// The list and the outbox after the key that destroys the selected message.
pub open spec fn expired(v: ThreadViewV, o: OutboxV) -> (ThreadViewV, OutboxV) {
    if !v.can_expire_now {
        (ThreadViewV { status_message: Some(no_expiry()), ..v }, o)
    } else if v.cursor < v.emails.len() {
        taken_away(
            v,
            o,
            BackendCommandV::DestroyEmail {
                op_id: v.next_write_op_id,
                id: v.emails[v.cursor as int].id,
            },
            "Expire"@,
        )
    } else {
        (v, o)
    }
}

/// The list and the outbox after the selected message is opened by itself, and its
/// view: the message is asked for, and marked as read if it was not.
pub open spec fn opened_single(v: ThreadViewV, o: OutboxV) -> (ThreadViewV, OutboxV, EmailViewV) {
    let e = v.emails[v.cursor as int];
    let view = blank_email_view(
        v.reply_from_address,
        e.id,
        None,
        v.can_expire_now,
        v.mailboxes,
        v.archive_folder,
        v.deleted_folder,
    );
    let asked = sent_to(o, BackendCommandV::GetEmail { id: e.id });
    if lookup(e.keywords, "$seen"@) is None {
        let r = seen_set(v, asked, true, "Mark read"@);
        (r.0, r.1, view)
    } else {
        (v, asked, view)
    }
}

/// The list scrolled so that the cursor is shown.
pub open spec fn scroll_adjusted(v: ThreadViewV, cursor: usize, rows: usize) -> ThreadViewV {
    ThreadViewV { cursor, scroll_offset: scrolled(cursor, v.scroll_offset, rows), ..v }
}

impl ThreadView {
    fn mark_on(&mut self, id: &str, word: &str, on: bool)
        ensures
            final(self).deep_view() == with_mark_on(old(self).deep_view(), id@, word@, on),
    {
        mark_in_list(&mut self.emails, id, word, on);
    }

    fn rollback_pending_write(&mut self, op: PendingWriteOp)
        ensures
            final(self).deep_view() == undone(old(self).deep_view(), op.deep_view()),
    {
        match op {
            PendingWriteOp::Flag { email_id, old_flagged } => {
                self.mark_on(email_id.as_str(), "$flagged", old_flagged);
            },
            PendingWriteOp::Seen { email_id, old_seen } => {
                self.mark_on(email_id.as_str(), "$seen", old_seen);
            },
            PendingWriteOp::Move { email, from_index } => {
                self.cursor = put_back(&mut self.emails, email, from_index);
            },
        }
    }

    fn start(&mut self, op: PendingWriteOp) -> (r: u64)
        ensures
            final(self).deep_view() == started(old(self).deep_view(), op.deep_view()),
            r == old(self).deep_view().next_write_op_id,
    {
        let id: u64 = next_generated_op_id(&mut self.next_write_op_id);
        num_put(&mut self.pending_write_ops, id, op);
        id
    }

    fn record_send_failure(&mut self, op_id: u64, op: PendingWriteOp, label: &str)
        ensures
            final(self).deep_view() == unsent(
                old(self).deep_view(),
                op_id,
                op.deep_view(),
                label@,
            ),
    {
        let _ = num_take(&mut self.pending_write_ops, op_id);
        self.rollback_pending_write(op);
        self.status_message = Some(failure(label, "sending on a closed channel"));
    }

    fn mark(
        &mut self,
        id: &str,
        word: &str,
        on: bool,
        op: PendingWriteOp,
        cmd: BackendCommand,
        label: &str,
        out: &mut Outbox,
    )
        ensures
            (final(self).deep_view(), final(out).deep_view()) == marked(
                old(self).deep_view(),
                old(out).deep_view(),
                id@,
                word@,
                on,
                op.deep_view(),
                cmd.deep_view(),
                label@,
            ),
    {
        let op_id: u64 = self.start(op.dup());
        self.mark_on(id, word, on);
        if !out.send(cmd) {
            self.record_send_failure(op_id, op, label);
        }
    }

    fn toggle_flag(&mut self, out: &mut Outbox)
        ensures
            (final(self).deep_view(), final(out).deep_view()) == flag_toggled(
                old(self).deep_view(),
                old(out).deep_view(),
            ),
    {
        if self.cursor < self.emails.len() {
            let e = at(self.emails.as_slice(), self.cursor);
            let id = e.id.clone();
            let old_flagged = e.keywords.contains_key("$flagged");
            let op = PendingWriteOp::Flag { email_id: id.clone(), old_flagged };
            let cmd = BackendCommand::SetEmailFlagged {
                op_id: self.next_write_op_id,
                id: id.clone(),
                flagged: !old_flagged,
            };
            self.mark(id.as_str(), "$flagged", !old_flagged, op, cmd, "Flag update", out);
        }
    }

    fn set_seen(&mut self, seen: bool, label: &str, out: &mut Outbox)
        requires
            old(self).cursor < old(self).emails@.len(),
        ensures
            (final(self).deep_view(), final(out).deep_view()) == seen_set(
                old(self).deep_view(),
                old(out).deep_view(),
                seen,
                label@,
            ),
    {
        let id = at(self.emails.as_slice(), self.cursor).id.clone();
        let op = PendingWriteOp::Seen { email_id: id.clone(), old_seen: !seen };
        let cmd = make_seen_command(self.next_write_op_id, id.clone(), seen);
        self.mark(id.as_str(), "$seen", seen, op, cmd, label, out);
    }

    fn toggle_seen(&mut self, out: &mut Outbox)
        ensures
            (final(self).deep_view(), final(out).deep_view()) == seen_toggled(
                old(self).deep_view(),
                old(out).deep_view(),
            ),
    {
        if self.cursor < self.emails.len() {
            let seen = at(self.emails.as_slice(), self.cursor).keywords.contains_key("$seen");
            self.set_seen(!seen, "Read state update", out);
        }
    }

    fn take_away(&mut self, cmd: BackendCommand, label: &str, out: &mut Outbox)
        requires
            old(self).cursor < old(self).emails@.len(),
        ensures
            (final(self).deep_view(), final(out).deep_view()) == taken_away(
                old(self).deep_view(),
                old(out).deep_view(),
                cmd.deep_view(),
                label@,
            ),
    {
        let ghost v = self.deep_view();
        let from_index: usize = self.cursor;
        let email = at(self.emails.as_slice(), from_index).dup();
        let op = PendingWriteOp::Move { email, from_index };
        let op_id: u64 = self.start(op.dup());
        take_out(&mut self.emails, from_index);
        if self.cursor >= self.emails.len() && self.cursor > 0 {
            self.cursor = self.cursor - 1;
        }
        if !out.send(cmd) {
            self.record_send_failure(op_id, op, label);
        }
    }

    fn move_to(&mut self, target: String, label: &str, out: &mut Outbox)
        ensures
            (final(self).deep_view(), final(out).deep_view()) == moved_to(
                old(self).deep_view(),
                old(out).deep_view(),
                target@,
                label@,
            ),
    {
        if self.cursor < self.emails.len() {
            let cmd = BackendCommand::MoveEmail {
                op_id: self.next_write_op_id,
                id: at(self.emails.as_slice(), self.cursor).id.clone(),
                to_mailbox_id: target,
            };
            self.take_away(cmd, label, out);
        }
    }

    fn move_selected_to_folder(&mut self, folder: &str, label: &str, out: &mut Outbox)
        ensures
            (final(self).deep_view(), final(out).deep_view()) == moved_to_folder(
                old(self).deep_view(),
                old(out).deep_view(),
                folder@,
                label@,
            ),
    {
        match resolve_mailbox_id(folder, self.mailboxes.as_slice()) {
            Some(target) => {
                self.move_to(target, label, out);
            },
            None => {
                self.status_message = Some(unresolved_message(label, folder));
            },
        }
    }

    fn expire_selected_now(&mut self, out: &mut Outbox)
        ensures
            (final(self).deep_view(), final(out).deep_view()) == expired(
                old(self).deep_view(),
                old(out).deep_view(),
            ),
    {
        if !self.can_expire_now {
            self.status_message = Some("Expire is only available in the deleted folder".to_owned());
        } else if self.cursor < self.emails.len() {
            let cmd = BackendCommand::DestroyEmail {
                op_id: self.next_write_op_id,
                id: at(self.emails.as_slice(), self.cursor).id.clone(),
            };
            self.take_away(cmd, "Expire", out);
        }
    }

    fn open_single(&mut self, out: &mut Outbox) -> (r: EmailView)
        requires
            old(self).cursor < old(self).emails@.len(),
        ensures
            (final(self).deep_view(), final(out).deep_view(), r.deep_view()) == opened_single(
                old(self).deep_view(),
                old(out).deep_view(),
            ),
    {
        let e = at(self.emails.as_slice(), self.cursor);
        let id = e.id.clone();
        let seen = e.keywords.contains_key("$seen");
        let view = EmailView::new(
            self.reply_from_address.clone(),
            id.clone(),
            self.can_expire_now,
            self.mailboxes.dup(),
            self.archive_folder.clone(),
            self.deleted_folder.clone(),
        );
        let _ = out.send(BackendCommand::GetEmail { id });
        if !seen {
            self.set_seen(true, "Mark read", out);
        }
        view
    }

    fn go_to(&mut self, cursor: usize, max_items: usize)
        ensures
            final(self).deep_view() == scroll_adjusted(old(self).deep_view(), cursor, max_items),
    {
        self.cursor = cursor;
        self.scroll_offset = scroll_to(cursor, self.scroll_offset, max_items);
    }
}

/// Whether the cursor is on a message, or there is none.
pub open spec fn cursor_fits(v: ThreadViewV) -> bool {
    v.cursor < v.emails.len() || v.emails.len() == 0
}

// ---------------------------------------------------------------------------
// Keys
// ---------------------------------------------------------------------------

/// A thread before its messages have come.
pub open spec fn blank_thread_view(
    reply_from_address: Seq<char>,
    thread_id: Seq<char>,
    subject: Seq<char>,
    mailboxes: Seq<MailboxV>,
    archive_folder: Seq<char>,
    deleted_folder: Seq<char>,
    can_expire_now: bool,
    filter_mailbox_id: Option<Seq<char>>,
) -> ThreadViewV {
    ThreadViewV {
        reply_from_address,
        thread_id,
        subject,
        emails: Seq::empty(),
        cursor: 0,
        loading: true,
        error: None,
        scroll_offset: 0,
        pending_click: false,
        status_message: None,
        next_write_op_id: 1,
        pending_write_ops: Seq::empty(),
        mailboxes,
        archive_folder,
        deleted_folder,
        can_expire_now,
        filter_mailbox_id,
    }
}

/// The outbox after the messages of a thread are asked for.
pub open spec fn thread_asked(o: OutboxV, thread_id: Seq<char>) -> OutboxV {
    sent_to(o, BackendCommandV::QueryThreadEmails { thread_id })
}

/// The list and the outbox after a refresh is asked for.
pub open spec fn refreshed(v: ThreadViewV, o: OutboxV) -> (ThreadViewV, OutboxV) {
    (ThreadViewV { loading: true, scroll_offset: 0, ..v }, thread_asked(o, v.thread_id))
}

/// The list after a key that moves the cursor; nothing if the key moves nothing.
pub open spec fn cursor_key(v: ThreadViewV, key: Key, page: usize) -> Option<ThreadViewV> {
    let n = v.emails.len();
    let down = if v.cursor + 1 < n {
        scroll_adjusted(v, (v.cursor + 1) as usize, page)
    } else {
        v
    };
    let up = if v.cursor > 0 {
        scroll_adjusted(v, (v.cursor - 1) as usize, page)
    } else {
        v
    };
    match key {
        Key::Char('n') => Some(down),
        Key::Char('j') => Some(down),
        Key::Down => Some(down),
        Key::ScrollDown => Some(down),
        Key::Char('p') => Some(up),
        Key::Char('k') => Some(up),
        Key::Up => Some(up),
        Key::ScrollUp => Some(up),
        Key::PageDown => Some(
            if n > 0 {
                scroll_adjusted(v, page_down(v.cursor, page, n), page)
            } else {
                v
            },
        ),
        Key::PageUp => Some(scroll_adjusted(v, cursor_back(v.cursor, page), page)),
        Key::Home => Some(scroll_adjusted(v, 0, page)),
        Key::End => Some(
            if n > 0 {
                scroll_adjusted(v, (n - 1) as usize, page)
            } else {
                v
            },
        ),
        _ => None,
    }
}

/// The list and the outbox after the selected message is opened, and what is to be
/// done; nothing where none is selected.
pub open spec fn opened(v: ThreadViewV, o: OutboxV) -> (ThreadViewV, OutboxV, Option<ViewActionV>) {
    if v.cursor < v.emails.len() {
        let r = opened_single(v, o);
        (r.0, r.1, Some(ViewActionV::Push(AnyViewV::Email(r.2))))
    } else {
        (v, o, None)
    }
}

/// What is to be done, or nothing.
pub open spec fn or_continue(action: Option<ViewActionV>) -> ViewActionV {
    match action {
        Some(a) => a,
        None => ViewActionV::Continue,
    }
}

/// What is to be done, or nothing.
pub fn action_or_continue(action: Option<ViewAction>) -> (r: ViewAction)
    ensures
        r.deep_view() == or_continue(action.deep_view()),
{
    match action {
        Some(a) => a,
        None => ViewAction::Continue,
    }
}

/// The list after a key, the outbox, and what is to be done.
pub open spec fn thread_view_key(v: ThreadViewV, o: OutboxV, key: Key, rows: u16) -> (
    ThreadViewV,
    OutboxV,
    ViewActionV,
) {
    match cursor_key(v, key, page_rows(rows, 4)) {
        Some(w) => (w, o, ViewActionV::Continue),
        None => match key {
            Key::Char('q') => (v, o, ViewActionV::Pop),
            Key::Enter => {
                let r = opened(v, o);
                (r.0, r.1, or_continue(r.2))
            },
            Key::Char('g') => {
                let r = refreshed(v, o);
                (r.0, r.1, ViewActionV::Continue)
            },
            Key::Char('f') => {
                let r = flag_toggled(v, o);
                (r.0, r.1, ViewActionV::Continue)
            },
            Key::Char('u') => {
                let r = seen_toggled(v, o);
                (r.0, r.1, ViewActionV::Continue)
            },
            Key::Char('a') => {
                let r = moved_to_folder(v, o, v.archive_folder, "Archive"@);
                (r.0, r.1, ViewActionV::Continue)
            },
            Key::Char('d') => {
                let r = moved_to_folder(v, o, v.deleted_folder, "Delete"@);
                (r.0, r.1, ViewActionV::Continue)
            },
            Key::Char('D') => {
                let r = expired(v, o);
                (r.0, r.1, ViewActionV::Continue)
            },
            Key::Char('c') => (v, o, ViewActionV::Compose(compose_draft(v.reply_from_address))),
            Key::Char('?') => (v, o, ViewActionV::Push(AnyViewV::Help(help_view()))),
            Key::MouseClick { row, .. } => (
                match clicked_row(row, v.scroll_offset, v.emails.len()) {
                    Some(c) => ThreadViewV { cursor: c, pending_click: true, ..v },
                    None => v,
                },
                o,
                ViewActionV::Continue,
            ),
            _ => (v, o, ViewActionV::Continue),
        },
    }
}

/// What is to be done after what happened before: a click opens a message.
pub open spec fn thread_view_pending(v: ThreadViewV, o: OutboxV) -> (
    ThreadViewV,
    OutboxV,
    Option<ViewActionV>,
) {
    if v.pending_click {
        opened(ThreadViewV { pending_click: false, ..v }, o)
    } else {
        (v, o, None)
    }
}

// ---------------------------------------------------------------------------
// Responses
// ---------------------------------------------------------------------------

/// Those of the first `k` messages that are in a mailbox.
pub open spec fn in_mailbox(emails: Seq<EmailV>, mailbox_id: Seq<char>, k: int) -> Seq<EmailV>
    decreases k,
{
    if k <= 0 {
        Seq::empty()
    } else {
        let before = in_mailbox(emails, mailbox_id, k - 1);
        if lookup(emails[k - 1].mailbox_ids, mailbox_id) is Some {
            before.push(emails[k - 1])
        } else {
            before
        }
    }
}

fn filter_emails(emails: &Vec<Email>, mailbox_id: &str) -> (r: Vec<Email>)
    ensures
        r.deep_view() == in_mailbox(
            emails.deep_view(),
            mailbox_id@,
            emails.deep_view().len() as int,
        ),
{
    let ghost ev = emails.deep_view();
    let mut kept: Vec<Email> = no_items();
    let mut i: usize = 0;
    while i < emails.len()
        invariant
            i <= emails@.len(),
            ev == emails.deep_view(),
            kept.deep_view() == in_mailbox(ev, mailbox_id@, i as int),
        decreases emails@.len() - i,
    {
        let e = at(emails.as_slice(), i);
        if e.mailbox_ids.contains_key(mailbox_id) {
            put(&mut kept, e.dup());
        }
        i = i + 1;
    }
    kept
}

/// The messages of the thread that the view shows.
pub open spec fn chosen(v: ThreadViewV, emails: Seq<EmailV>) -> Seq<EmailV> {
    match v.filter_mailbox_id {
        Some(id) => in_mailbox(emails, id, emails.len() as int),
        None => emails,
    }
}

/// The list after the messages of its thread have come.
pub open spec fn thread_come(
    v: ThreadViewV,
    result: Result<Seq<EmailV>, Seq<char>>,
) -> ThreadViewV {
    match result {
        Ok(emails) => ThreadViewV {
            loading: false,
            emails: chosen(v, emails),
            error: None,
            pending_write_ops: Seq::empty(),
            cursor: cursor_clamped(v.cursor, chosen(v, emails).len()),
            ..v
        },
        Err(e) => ThreadViewV {
            loading: false,
            error: Some("Failed to load thread: "@ + e),
            ..v
        },
    }
}

/// The list and the outbox after the outcome of a change has come, and whether the
/// change was this view's: one that failed is undone, and after most of those that
/// did not the messages are asked for again.
pub open spec fn change_settled(
    v: ThreadViewV,
    o: OutboxV,
    op_id: u64,
    action: EmailMutationAction,
    result: Result<(), Seq<char>>,
) -> (ThreadViewV, OutboxV, bool) {
    match num_lookup(v.pending_write_ops, op_id) {
        Some(op) => {
            let w = ThreadViewV {
                pending_write_ops: num_without(v.pending_write_ops, op_id),
                ..v
            };
            match result {
                Ok(_) => if op is Flag {
                    (w, o, true)
                } else {
                    let r = refreshed(w, o);
                    (r.0, r.1, true)
                },
                Err(e) => (
                    ThreadViewV {
                        status_message: Some(with_error(action_name(action), e)),
                        ..undone(w, op)
                    },
                    o,
                    true,
                ),
            }
        },
        None => (v, o, false),
    }
}

/// The list after a response, the outbox, and whether the response was for it.
pub open spec fn thread_view_response(v: ThreadViewV, o: OutboxV, response: BackendResponseV) -> (
    ThreadViewV,
    OutboxV,
    bool,
) {
    match response {
        BackendResponseV::ThreadEmails { thread_id, emails } => if thread_id == v.thread_id {
            (thread_come(v, emails), o, true)
        } else {
            (v, o, false)
        },
        BackendResponseV::EmailMutation { op_id, action, result, .. } => change_settled(
            v,
            o,
            op_id,
            action,
            result,
        ),
        _ => (v, o, false),
    }
}

// ---------------------------------------------------------------------------
// The screen
// ---------------------------------------------------------------------------

/// The line of a message among those of one mailbox.
pub open spec fn thread_line(e: EmailV, width: u16) -> Seq<char> {
    let from_width = if minus(width as int, 19) < 20 {
        minus(width as int, 19)
    } else {
        20
    };
    let subject_width = minus(width as int, 19 + from_width);
    " "@ + list_marks(e) + " "@ + list_date(e) + " "@ + padded(
        truncated(list_sender(e), from_width as nat),
        from_width as nat,
    ) + " "@ + truncated(list_subject(e), subject_width as nat)
}

fn format_email(e: &Email, width: u16) -> (r: String)
    ensures
        r@ == thread_line(e.deep_view(), width),
{
    let room: usize = rows_below(width, 19);
    let from_width: usize = if room < 20 {
        room
    } else {
        20
    };
    let subject_width: usize = step_up(width as usize, 19 + from_width);
    let mut s = " ".to_owned();
    s.append(marks_in_list(e).as_str());
    s.append(" ");
    s.append(date_in_list(e).as_str());
    s.append(" ");
    let from = truncate(sender_in_list(e).as_str(), from_width);
    s.append(pad(from.as_str(), from_width).as_str());
    s.append(" ");
    s.append(truncate(subject_in_list(e).as_str(), subject_width).as_str());
    s
}

/// The line of a message among those of all mailboxes.
pub open spec fn cross_folder_line(e: EmailV, folder: Seq<char>, width: u16) -> Seq<char> {
    let folder_width: int = if byte_len(folder) < 12 {
        byte_len(folder) as int
    } else {
        12
    };
    let prefix = 19 + folder_width + 2;
    let from_width = if minus(width as int, prefix) < 20 {
        minus(width as int, prefix)
    } else {
        20
    };
    let subject_width = minus(width as int, prefix + from_width);
    " "@ + list_marks(e) + " "@ + list_date(e) + " ["@ + truncated(folder, 12) + "] "@ + padded(
        truncated(list_sender(e), from_width as nat),
        from_width as nat,
    ) + " "@ + truncated(list_subject(e), subject_width as nat)
}

fn format_email_cross_folder(e: &Email, folder: &str, width: u16) -> (r: String)
    ensures
        r@ == cross_folder_line(e.deep_view(), folder@, width),
{
    let bytes: usize = count_bytes(folder);
    let folder_width: usize = if bytes < 12 {
        bytes
    } else {
        12
    };
    let prefix: usize = 19 + folder_width + 2;
    let room: usize = step_up(width as usize, prefix);
    let from_width: usize = if room < 20 {
        room
    } else {
        20
    };
    let subject_width: usize = step_up(width as usize, prefix + from_width);
    let mut s = " ".to_owned();
    s.append(marks_in_list(e).as_str());
    s.append(" ");
    s.append(date_in_list(e).as_str());
    s.append(" [");
    s.append(truncate(folder, 12).as_str());
    s.append("] ");
    let from = truncate(sender_in_list(e).as_str(), from_width);
    s.append(pad(from.as_str(), from_width).as_str());
    s.append(" ");
    s.append(truncate(subject_in_list(e).as_str(), subject_width).as_str());
    s
}

/// The first mailbox at or after `i` with an id, or the number of mailboxes.
pub open spec fn mailbox_index(mailboxes: Seq<MailboxV>, id: Seq<char>, i: int) -> int
    decreases mailboxes.len() - i,
{
    if i >= mailboxes.len() {
        mailboxes.len() as int
    } else if mailboxes[i].id == id {
        i
    } else {
        mailbox_index(mailboxes, id, i + 1)
    }
}

fn mailbox_position(mailboxes: &Vec<Mailbox>, id: &str) -> (r: usize)
    ensures
        r == mailbox_index(mailboxes.deep_view(), id@, 0),
        r <= mailboxes@.len(),
{
    let mut i: usize = 0;
    while i < mailboxes.len()
        invariant
            i <= mailboxes@.len(),
            mailbox_index(mailboxes.deep_view(), id@, 0) == mailbox_index(
                mailboxes.deep_view(),
                id@,
                i as int,
            ),
        decreases mailboxes@.len() - i,
    {
        if same(at(mailboxes.as_slice(), i).id.as_str(), id) {
            return i;
        }
        i = i + 1;
    }
    i
}

/// The name of the first known mailbox that holds a message, from its mailbox `i`
/// on.
pub open spec fn folder_name(e: EmailV, mailboxes: Seq<MailboxV>, i: int) -> Seq<char>
    decreases e.mailbox_ids.len() - i,
{
    if i >= e.mailbox_ids.len() {
        "(unknown)"@
    } else {
        let j = mailbox_index(mailboxes, e.mailbox_ids[i].0, 0);
        if j < mailboxes.len() {
            mailboxes[j].name
        } else {
            folder_name(e, mailboxes, i + 1)
        }
    }
}

/// The line of a message in the list.
pub open spec fn shown_thread_line(v: ThreadViewV, e: EmailV, width: u16) -> Seq<char> {
    if v.filter_mailbox_id is None {
        cross_folder_line(e, folder_name(e, v.mailboxes, 0), width)
    } else {
        thread_line(e, width)
    }
}

/// The terminal after the row of a message.
pub open spec fn message_row(
    t: TerminalV,
    row: u16,
    line: Seq<char>,
    on: bool,
    unread: bool,
) -> TerminalV {
    let a = moved(t, row, 1);
    let b = if on {
        selected(a)
    } else {
        a
    };
    let c = if unread {
        in_bold(b)
    } else {
        b
    };
    plain(clipped(c, line, t.cols))
}

/// Shows the row of a message.
pub fn render_message_row(term: &mut Terminal, row: u16, line: &str, on: bool, unread: bool)
    ensures
        final(term).deep_view() == message_row(old(term).deep_view(), row, line@, on, unread),
{
    term.move_to(row, 1);
    if on {
        term.set_selection();
    }
    if unread {
        term.set_bold_text();
    }
    term.write_truncated(line, term.cols);
    term.reset_attr();
}

/// The terminal after the first `k` rows of messages.
pub open spec fn thread_rows(t: TerminalV, v: ThreadViewV, k: nat) -> TerminalV
    decreases k,
{
    if k == 0 {
        t
    } else {
        let i = v.scroll_offset + k - 1;
        message_row(
            thread_rows(t, v, (k - 1) as nat),
            (k + 2) as u16,
            shown_thread_line(v, v.emails[i], t.cols),
            i == v.cursor,
            lookup(v.emails[i].keywords, "$seen"@) is None,
        )
    }
}

/// The heading.
pub open spec fn thread_header(v: ThreadViewV) -> Seq<char> {
    (if v.filter_mailbox_id is Some {
        "Thread"@
    } else {
        "Thread (all folders)"@
    }) + ": "@ + v.subject + " ("@ + decimal(v.emails.len()) + " messages)"@
}

/// The status.
pub open spec fn thread_status(v: ThreadViewV) -> Seq<char> {
    if v.loading {
        " Loading... | q:back"@
    } else if v.emails.len() == 0 {
        " q:back g:refresh"@
    } else {
        " "@ + decimal(plus_one(v.cursor) as nat) + "/"@ + decimal(v.emails.len())
            + " | q:back n/p:nav RET:read g:refresh a:archive d:delete"@ + (if v.can_expire_now {
            " D:expire"@
        } else {
            ""@
        }) + " f:flag u:unread"@
    }
}

/// The terminal after the part between the heading and the status.
pub open spec fn thread_body(t: TerminalV, v: ThreadViewV) -> TerminalV {
    if v.loading && v.emails.len() == 0 {
        row_text(t, 3, "Loading thread..."@)
    } else {
        match v.error {
            Some(e) => row_text(t, 3, e),
            None => if v.emails.len() == 0 {
                row_text(t, 3, "No messages in thread."@)
            } else {
                thread_rows(t, v, shown_items(v.scroll_offset, v.emails.len(), t.rows, 4))
            },
        }
    }
}

/// The terminal after the list.
pub open spec fn thread_view_shown(t: TerminalV, v: ThreadViewV) -> TerminalV {
    status_line(
        thread_body(title(t, thread_header(v)), v),
        with_status(v.status_message, thread_status(v)),
    )
}

impl ThreadView {
    /// A thread before its messages have come; asks for them.
    pub fn new(
        reply_from_address: String,
        thread_id: String,
        subject: String,
        mailboxes: Vec<Mailbox>,
        archive_folder: String,
        deleted_folder: String,
        can_expire_now: bool,
        filter_mailbox_id: Option<String>,
        out: &mut Outbox,
    ) -> (r: ThreadView)
        ensures
            final(out).deep_view() == thread_asked(old(out).deep_view(), thread_id@),
            r.deep_view() == blank_thread_view(
                reply_from_address@,
                thread_id@,
                subject@,
                mailboxes.deep_view(),
                archive_folder@,
                deleted_folder@,
                can_expire_now,
                filter_mailbox_id.deep_view(),
            ),
    {
        let _ = out.send(BackendCommand::QueryThreadEmails { thread_id: thread_id.clone() });
        let emails: Vec<Email> = no_items();
        let pending_write_ops: Vec<(u64, PendingWriteOp)> = no_items();
        ThreadView {
            reply_from_address,
            thread_id,
            subject,
            emails,
            cursor: 0,
            loading: true,
            error: None,
            scroll_offset: 0,
            pending_click: false,
            status_message: None,
            next_write_op_id: 1,
            pending_write_ops,
            mailboxes,
            archive_folder,
            deleted_folder,
            can_expire_now,
            filter_mailbox_id,
        }
    }

    fn request_refresh(&mut self, out: &mut Outbox)
        ensures
            (final(self).deep_view(), final(out).deep_view()) == refreshed(
                old(self).deep_view(),
                old(out).deep_view(),
            ),
    {
        self.loading = true;
        self.scroll_offset = 0;
        let _ = out.send(BackendCommand::QueryThreadEmails { thread_id: self.thread_id.clone() });
    }

    fn open_selected(&mut self, out: &mut Outbox) -> (r: Option<ViewAction>)
        ensures
            (final(self).deep_view(), final(out).deep_view(), r.deep_view()) == opened(
                old(self).deep_view(),
                old(out).deep_view(),
            ),
    {
        if self.cursor < self.emails.len() {
            let view = self.open_single(out);
            Some(ViewAction::Push(AnyView::Email(view)))
        } else {
            None
        }
    }

    fn handle_cursor_key(&mut self, key: Key, page: usize) -> (r: bool)
        ensures
            match cursor_key(old(self).deep_view(), key, page) {
                Some(w) => r && final(self).deep_view() == w,
                None => !r && final(self).deep_view() == old(self).deep_view(),
            },
    {
        let n: usize = self.emails.len();
        let down: Option<usize> = if n > 1 && self.cursor < n - 1 {
            Some(self.cursor + 1)
        } else {
            None
        };
        let up: Option<usize> = if self.cursor > 0 {
            Some(self.cursor - 1)
        } else {
            None
        };
        let target: Option<usize> = match key {
            Key::Char('n') => down,
            Key::Char('j') => down,
            Key::Down => down,
            Key::ScrollDown => down,
            Key::Char('p') => up,
            Key::Char('k') => up,
            Key::Up => up,
            Key::ScrollUp => up,
            Key::PageDown => if n > 0 {
                Some(step_page_down(self.cursor, page, n))
            } else {
                None
            },
            Key::PageUp => Some(step_up(self.cursor, page)),
            Key::Home => Some(0),
            Key::End => if n > 0 {
                Some(n - 1)
            } else {
                None
            },
            _ => {
                return false;
            },
        };
        match target {
            Some(c) => {
                self.go_to(c, page);
            },
            None => {},
        }
        true
    }

    /// Takes a key.
    pub fn handle_key(&mut self, key: Key, term_rows: u16, out: &mut Outbox) -> (r: ViewAction)
        ensures
            (final(self).deep_view(), final(out).deep_view(), r.deep_view()) == thread_view_key(
                old(self).deep_view(),
                old(out).deep_view(),
                key,
                term_rows,
            ),
    {
        if self.handle_cursor_key(key, rows_below(term_rows, 4)) {
            return ViewAction::Continue;
        }
        match key {
            Key::Char('q') => ViewAction::Pop,
            Key::Enter => action_or_continue(self.open_selected(out)),
            Key::Char('g') => {
                self.request_refresh(out);
                ViewAction::Continue
            },
            Key::Char('f') => {
                self.toggle_flag(out);
                ViewAction::Continue
            },
            Key::Char('u') => {
                self.toggle_seen(out);
                ViewAction::Continue
            },
            Key::Char('a') => {
                let folder = self.archive_folder.clone();
                self.move_selected_to_folder(folder.as_str(), "Archive", out);
                ViewAction::Continue
            },
            Key::Char('d') => {
                let folder = self.deleted_folder.clone();
                self.move_selected_to_folder(folder.as_str(), "Delete", out);
                ViewAction::Continue
            },
            Key::Char('D') => {
                self.expire_selected_now(out);
                ViewAction::Continue
            },
            Key::Char('c') => ViewAction::Compose(
                build_compose_draft(self.reply_from_address.as_str()),
            ),
            Key::Char('?') => ViewAction::Push(AnyView::Help(HelpView::new())),
            Key::MouseClick { row, .. } => {
                match hit_row(row, self.scroll_offset, self.emails.len()) {
                    Some(c) => {
                        self.cursor = c;
                        self.pending_click = true;
                    },
                    None => {},
                }
                ViewAction::Continue
            },
            _ => ViewAction::Continue,
        }
    }

    /// Says what is to be done after what happened before.
    pub fn take_pending_action(&mut self, out: &mut Outbox) -> (r: Option<ViewAction>)
        ensures
            (final(self).deep_view(), final(out).deep_view(), r.deep_view())
                == thread_view_pending(old(self).deep_view(), old(out).deep_view()),
    {
        if self.pending_click {
            self.pending_click = false;
            return self.open_selected(out);
        }
        None
    }

    fn take_thread(&mut self, result: &Result<Vec<Email>, String>)
        ensures
            final(self).deep_view() == thread_come(old(self).deep_view(), result_view(*result)),
    {
        self.loading = false;
        match result {
            Ok(emails) => {
                let kept = match &self.filter_mailbox_id {
                    Some(id) => filter_emails(emails, id.as_str()),
                    None => emails.dup(),
                };
                self.emails = kept;
                self.error = None;
                let none: Vec<(u64, PendingWriteOp)> = no_items();
                self.pending_write_ops = none;
                self.cursor = clamp_cursor(self.cursor, self.emails.len());
            },
            Err(e) => {
                self.error = Some(text2("Failed to load thread: ", e.as_str()));
            },
        }
    }

    fn settle_change(
        &mut self,
        op_id: u64,
        action: EmailMutationAction,
        result: &Result<(), String>,
        out: &mut Outbox,
    ) -> (r: bool)
        ensures
            (final(self).deep_view(), final(out).deep_view(), r) == change_settled(
                old(self).deep_view(),
                old(out).deep_view(),
                op_id,
                action,
                result_view(*result),
            ),
    {
        let ghost before = self.deep_view();
        let taken = num_take(&mut self.pending_write_ops, op_id);
        assert(self.deep_view() == ThreadViewV {
            pending_write_ops: num_without(before.pending_write_ops, op_id),
            ..before
        });
        match taken {
            Some(op) => {
                match result {
                    Ok(_) => match op {
                        PendingWriteOp::Flag { .. } => {},
                        _ => {
                            self.request_refresh(out);
                        },
                    },
                    Err(e) => {
                        self.rollback_pending_write(op);
                        self.status_message = Some(failure(name_of_action(action), e.as_str()));
                    },
                }
                true
            },
            None => false,
        }
    }

    /// Takes a response; says whether it was for this view.
    pub fn on_response(&mut self, response: &BackendResponse, out: &mut Outbox) -> (r: bool)
        ensures
            (final(self).deep_view(), final(out).deep_view(), r) == thread_view_response(
                old(self).deep_view(),
                old(out).deep_view(),
                response.deep_view(),
            ),
    {
        match response {
            BackendResponse::ThreadEmails { thread_id, emails } => {
                if same(thread_id.as_str(), self.thread_id.as_str()) {
                    self.take_thread(emails);
                    true
                } else {
                    false
                }
            },
            BackendResponse::EmailMutation { op_id, action, result, .. } => self.settle_change(
                *op_id,
                *action,
                result,
                out,
            ),
            _ => false,
        }
    }

    fn mailbox_name_for_email(&self, e: &Email) -> (r: String)
        ensures
            r@ == folder_name(e.deep_view(), self.deep_view().mailboxes, 0),
    {
        let ghost ev = e.deep_view();
        let ghost mv = self.mailboxes.deep_view();
        let n: usize = e.mailbox_ids.len();
        let mut i: usize = 0;
        while i < n
            invariant
                i <= n,
                n == e.mailbox_ids.deep_view().len(),
                ev == e.deep_view(),
                mv == self.mailboxes.deep_view(),
                folder_name(ev, mv, 0) == folder_name(ev, mv, i as int),
            decreases n - i,
        {
            let j: usize = mailbox_position(&self.mailboxes, e.mailbox_ids.key_at(i));
            if j < self.mailboxes.len() {
                return at(self.mailboxes.as_slice(), j).name.clone();
            }
            i = i + 1;
        }
        "(unknown)".to_owned()
    }

    fn row_line(&self, e: &Email, cols: u16) -> (r: String)
        ensures
            r@ == shown_thread_line(self.deep_view(), e.deep_view(), cols),
    {
        if self.filter_mailbox_id.is_none() {
            let folder = self.mailbox_name_for_email(e);
            format_email_cross_folder(e, folder.as_str(), cols)
        } else {
            format_email(e, cols)
        }
    }

    #[verifier::spinoff_prover]
    fn render_rows(&self, term: &mut Terminal)
        ensures
            ({
                let v = self.deep_view();
                let t = old(term).deep_view();
                final(term).deep_view() == thread_rows(
                    t,
                    v,
                    shown_items(v.scroll_offset, v.emails.len(), t.rows, 4),
                )
            }),
    {
        let ghost v = self.deep_view();
        let ghost t = term.deep_view();
        let n: u16 = count_items(self.scroll_offset, self.emails.len(), term.rows, 4);
        let mut i: u16 = 0;
        while i < n
            invariant
                i <= n,
                n + 4 <= u16::MAX || n == 0,
                v == self.deep_view(),
                self.emails@.len() <= usize::MAX,
                n == 0 || self.scroll_offset + n <= self.emails@.len(),
                term.deep_view() == thread_rows(t, v, i as nat),
                term.cols == t.cols,
            decreases n - i,
        {
            let at_row: usize = self.scroll_offset + i as usize;
            let e = at(self.emails.as_slice(), at_row);
            i = i + 1;
            let line = self.row_line(e, term.cols);
            let unread = !e.keywords.contains_key("$seen");
            render_message_row(term, i + 2, line.as_str(), at_row == self.cursor, unread);
        }
    }

    fn status(&self) -> (r: String)
        ensures
            r@ == thread_status(self.deep_view()),
    {
        if self.loading {
            " Loading... | q:back".to_owned()
        } else if self.emails.len() == 0 {
            " q:back g:refresh".to_owned()
        } else {
            let mut s = " ".to_owned();
            s.append(dec(self.cursor.saturating_add(1) as u64).as_str());
            s.append("/");
            s.append(dec(self.emails.len() as u64).as_str());
            s.append(" | q:back n/p:nav RET:read g:refresh a:archive d:delete");
            s.append(
                if self.can_expire_now {
                    " D:expire"
                } else {
                    ""
                },
            );
            s.append(" f:flag u:unread");
            s
        }
    }

    /// Shows the list.
    pub fn render(&self, term: &mut Terminal)
        ensures
            final(term).deep_view() == thread_view_shown(old(term).deep_view(), self.deep_view()),
    {
        let mut header = if self.filter_mailbox_id.is_some() {
            "Thread".to_owned()
        } else {
            "Thread (all folders)".to_owned()
        };
        header.append(": ");
        header.append(self.subject.as_str());
        header.append(" (");
        header.append(dec(self.emails.len() as u64).as_str());
        header.append(" messages)");
        term.write_title(header.as_str());
        if self.loading && self.emails.len() == 0 {
            term.write_row(3, "Loading thread...");
        } else {
            match &self.error {
                Some(e) => {
                    term.write_row(3, e.as_str());
                },
                None => {
                    if self.emails.len() == 0 {
                        term.write_row(3, "No messages in thread.");
                    } else {
                        self.render_rows(term);
                    }
                },
            }
        }
        term.write_status(status_with(&self.status_message, self.status()).as_str());
    }
}

/// No key moves the cursor off the list.
pub proof fn law_key_keeps_cursor(v: ThreadViewV, o: OutboxV, key: Key, rows: u16)
    requires
        cursor_fits(v),
        v.emails.len() <= usize::MAX,
    ensures
        cursor_fits(thread_view_key(v, o, key, rows).0),
{
    broadcast use lemma_mark_keeps_length;

}

/// Whether the numbers of the changes whose outcome is not known are distinct and
/// below the next one to be given.
pub open spec fn pending_ok(v: ThreadViewV) -> bool {
    numbers_ok(v.pending_write_ops, v.next_write_op_id)
}

broadcast proof fn lemma_marked_numbers(
    v: ThreadViewV,
    o: OutboxV,
    id: Seq<char>,
    word: Seq<char>,
    on: bool,
    op: PendingWriteOpV,
    cmd: BackendCommandV,
    label: Seq<char>,
)
    requires
        numbers_distinct(v.pending_write_ops),
    ensures
        numbers_distinct(
            (#[trigger] marked(v, o, id, word, on, op, cmd, label).0).pending_write_ops,
        ),
        pending_ok(v) && v.next_write_op_id < u64::MAX ==> pending_ok(
            marked(v, o, id, word, on, op, cmd, label).0,
        ),
{
    lemma_numbers_stay_distinct(v.pending_write_ops, v.next_write_op_id, op);
    if pending_ok(v) && v.next_write_op_id < u64::MAX {
        lemma_number_given(v.pending_write_ops, v.next_write_op_id, op);
        let given = num_with(v.pending_write_ops, v.next_write_op_id, op);
        lemma_number_taken(given, next_id(v.next_write_op_id), v.next_write_op_id);
    }
}

broadcast proof fn lemma_taken_away_numbers(
    v: ThreadViewV,
    o: OutboxV,
    cmd: BackendCommandV,
    label: Seq<char>,
)
    requires
        numbers_distinct(v.pending_write_ops),
    ensures
        numbers_distinct((#[trigger] taken_away(v, o, cmd, label).0).pending_write_ops),
        pending_ok(v) && v.next_write_op_id < u64::MAX ==> pending_ok(
            taken_away(v, o, cmd, label).0,
        ),
{
    let op = PendingWriteOpV::Move { email: v.emails[v.cursor as int], from_index: v.cursor };
    lemma_numbers_stay_distinct(v.pending_write_ops, v.next_write_op_id, op);
    if pending_ok(v) && v.next_write_op_id < u64::MAX {
        lemma_number_given(v.pending_write_ops, v.next_write_op_id, op);
        let given = num_with(v.pending_write_ops, v.next_write_op_id, op);
        lemma_number_taken(given, next_id(v.next_write_op_id), v.next_write_op_id);
    }
}

/// No key leaves two changes under the same number, nor, until the numbers are used up,
/// one under a number that is still to be given.
#[verifier::spinoff_prover]
#[verifier::rlimit(60)]
pub proof fn law_key_numbers_are_distinct(v: ThreadViewV, o: OutboxV, key: Key, rows: u16)
    requires
        numbers_distinct(v.pending_write_ops),
    ensures
        numbers_distinct(thread_view_key(v, o, key, rows).0.pending_write_ops),
        pending_ok(v) && v.next_write_op_id < u64::MAX ==> pending_ok(
            thread_view_key(v, o, key, rows).0,
        ),
{
    broadcast use lemma_marked_numbers, lemma_taken_away_numbers;

}

/// No response leaves two changes under the same number.
pub proof fn law_response_numbers_are_distinct(
    v: ThreadViewV,
    o: OutboxV,
    response: BackendResponseV,
)
    requires
        pending_ok(v),
    ensures
        pending_ok(thread_view_response(v, o, response).0),
{
    match response {
        BackendResponseV::EmailMutation { op_id, .. } => {
            lemma_number_taken(v.pending_write_ops, v.next_write_op_id, op_id);
        },
        _ => {},
    }
}

/// Whether a key asks for a change of the selected message.
pub open spec fn changing_key(key: Key) -> bool {
    key == Key::Char('f') || key == Key::Char('u') || key == Key::Char('a') || key == Key::Char('d')
        || key == Key::Char('D')
}

/// A flag, a reading mark, an archiving, a deletion or an expiry that the server
/// refuses is undone: the list holds the same messages in the same order, the cursor
/// is where it was, nothing stays pending of the change, and the reason is told.
pub proof fn law_refused_change_is_undone(
    v: ThreadViewV,
    o: OutboxV,
    key: Key,
    rows: u16,
    id: Seq<char>,
    action: EmailMutationAction,
    e: Seq<char>,
)
    requires
        ids_distinct(v.emails),
        forall|i: int| 0 <= i < v.emails.len() ==> keywords_true(#[trigger] v.emails[i]),
        v.cursor < v.emails.len() <= usize::MAX,
        o.open,
        numbers_distinct(v.pending_write_ops),
        changing_key(key),
        thread_view_key(v, o, key, rows).1.sent.len() > o.sent.len(),
    ensures
        ({
            let (w, sent, _) = thread_view_key(v, o, key, rows);
            let refusal = BackendResponseV::EmailMutation {
                op_id: v.next_write_op_id,
                id,
                action,
                result: Err(e),
            };
            let (after, _, told) = thread_view_response(w, sent, refusal);
            &&& told
            &&& same_emails(after.emails, v.emails)
            &&& after.cursor == v.cursor
            &&& num_lookup(after.pending_write_ops, v.next_write_op_id) is None
            &&& num_lookup(v.pending_write_ops, v.next_write_op_id) is None
                ==> after.pending_write_ops == v.pending_write_ops
            &&& after.status_message == Some(with_error(action_name(action), e))
        }),
{
    let c = v.cursor as int;
    let m = v.emails[c];
    let n = v.next_write_op_id;
    let flag = PendingWriteOpV::Flag {
        email_id: m.id,
        old_flagged: lookup(m.keywords, "$flagged"@) is Some,
    };
    let seen = PendingWriteOpV::Seen {
        email_id: m.id,
        old_seen: lookup(m.keywords, "$seen"@) is Some,
    };
    let away = PendingWriteOpV::Move { email: m, from_index: v.cursor };
    law_num_put_then_take(v.pending_write_ops, n, flag);
    law_num_put_then_take(v.pending_write_ops, n, seen);
    law_num_put_then_take(v.pending_write_ops, n, away);
    lemma_marks_and_back(v.emails, c, "$flagged"@);
    lemma_marks_and_back(v.emails, c, "$seen"@);
    assert(v.emails.remove(c).insert(c, m) =~= v.emails);
}

/// Whatever the backend answers, the cursor stays on a message, if there is one.
#[verifier::spinoff_prover]
#[verifier::rlimit(30)]
pub proof fn law_response_keeps_cursor(v: ThreadViewV, o: OutboxV, response: BackendResponseV)
    requires
        cursor_fits(v),
        v.emails.len() <= usize::MAX,
        thread_view_response(v, o, response).0.emails.len() <= usize::MAX,
    ensures
        cursor_fits(thread_view_response(v, o, response).0),
{
    broadcast use lemma_mark_keeps_length;

}

/// A view of one mailbox shows only messages that are in it, and shows all of those
/// that came.
pub proof fn law_only_messages_of_the_mailbox(emails: Seq<EmailV>, mailbox_id: Seq<char>, k: int)
    requires
        0 <= k <= emails.len(),
    ensures
        forall|e: EmailV| #[trigger]
            in_mailbox(emails, mailbox_id, k).contains(e) <==> (emails.take(k).contains(e)
                && lookup(e.mailbox_ids, mailbox_id) is Some),
    decreases k,
{
    if k > 0 {
        law_only_messages_of_the_mailbox(emails, mailbox_id, k - 1);
        assert(emails.take(k) =~= emails.take(k - 1).push(emails[k - 1]));
        let before = in_mailbox(emails, mailbox_id, k - 1);
        assert forall|e: EmailV| #[trigger]
            in_mailbox(emails, mailbox_id, k).contains(e) <==> (emails.take(k).contains(e)
                && lookup(e.mailbox_ids, mailbox_id) is Some) by {
            assert(before.contains(e) <==> (emails.take(k - 1).contains(e) && lookup(
                e.mailbox_ids,
                mailbox_id,
            ) is Some));
            assert(emails.take(k - 1).push(emails[k - 1]).contains(e) <==> (emails.take(
                k - 1,
            ).contains(e) || e == emails[k - 1]));
            assert(before.push(emails[k - 1]).contains(e) <==> (before.contains(e) || e
                == emails[k - 1]));
        }
    } else {
        assert(emails.take(0) =~= Seq::<EmailV>::empty());
    }
}

} // verus!
