//! The terminal: which operation each key asks for on what is selected, and what is
//! shown of it.

use vstd::prelude::*;

use crate::backend::{BackendCommandV, BackendResponseV};
use crate::cache::with_keyword;
use crate::compose::{compose_draft, forward_draft, reply_draft};
use crate::data::{lemma_lookup_with_entry, lemma_lookup_without_key, lookup};
use crate::jmap::types::{EmailV, MailboxV};
use crate::laws::offline::same_but_keyword;
use crate::rules::resolved_mailbox;
use crate::text::{ascii_lower, begins, decimal, trimmed};
use crate::tui::input::Key;
use crate::tui::views::email_list::{appended, email_list_key, email_list_response, EmailListViewV};
use crate::tui::views::email_view::{email_view_key, email_view_response, EmailViewV};
use crate::tui::views::mailbox_list::{
    account_index, mailbox_le, mailbox_line, mailbox_list_key, MailboxListViewV,
};
use crate::tui::views::thread_view::{thread_view_key, ThreadViewV};
use crate::tui::views::{email_index, lemma_email_index, view_sync, AnyViewV, OutboxV, ViewActionV};

verus! {

/// What is sent to flag a message that is not flagged, or to take its flag away.
pub open spec fn other_flag(op_id: u64, e: EmailV) -> BackendCommandV {
    BackendCommandV::SetEmailFlagged {
        op_id,
        id: e.id,
        flagged: lookup(e.keywords, "$flagged"@) is None,
    }
}

/// What is sent to mark an unread message as read, or a read one as unread.
pub open spec fn other_seen(op_id: u64, e: EmailV) -> BackendCommandV {
    if lookup(e.keywords, "$seen"@) is None {
        BackendCommandV::MarkEmailRead { op_id, id: e.id }
    } else {
        BackendCommandV::MarkEmailUnread { op_id, id: e.id }
    }
}

/// Whether a key has just one thing sent.
pub open spec fn sends(o: OutboxV, p: OutboxV, cmd: BackendCommandV) -> bool {
    p == OutboxV { sent: o.sent.push(cmd), ..o }
}

proof fn lemma_mark(e: EmailV, word: Seq<char>, on: bool)
    ensures
        lookup(with_keyword(e, word, on).keywords, word) is Some <==> on,
        same_but_keyword(e, with_keyword(e, word, on), word),
{
    let f = with_keyword(e, word, on);
    lemma_lookup_with_entry(e.keywords, word, true, word);
    lemma_lookup_without_key(e.keywords, word, word);
    assert forall|w: Seq<char>| w != word implies #[trigger] lookup(e.keywords, w) == lookup(
        f.keywords,
        w,
    ) by {
        lemma_lookup_with_entry(e.keywords, word, true, w);
        lemma_lookup_without_key(e.keywords, word, w);
    }
}

proof fn lemma_first_index(s: Seq<EmailV>, i: int, k: int)
    requires
        0 <= k <= i < s.len(),
        forall|j: int| 0 <= j < i ==> (#[trigger] s[j]).id != s[i].id,
    ensures
        email_index(s, s[i].id, k) == i,
    decreases i - k,
{
    if k < i {
        assert(s[k].id != s[i].id);
        lemma_first_index(s, i, k + 1);
    }
}

/// Whether two lists differ at most in one message's keyword, which is the other way
/// round in the second.
pub open spec fn toggled(a: Seq<EmailV>, b: Seq<EmailV>, i: int, word: Seq<char>) -> bool {
    &&& b.len() == a.len()
    &&& forall|j: int| 0 <= j < a.len() && j != i ==> #[trigger] b[j] == a[j]
    &&& same_but_keyword(a[i], b[i], word)
    &&& lookup(b[i].keywords, word) is Some <==> lookup(a[i].keywords, word) is None
}

// ---------------------------------------------------------------------------
// The list of a mailbox
// ---------------------------------------------------------------------------

/// In the list of a mailbox, `f` has the flag of the selected message turned round and
/// `u` its reading mark, and the list shows it at once, of that message alone. `a` has
/// the selected message moved to the folder for archived messages and `d` to the one for
/// deleted ones, and it leaves the list at once. `D` has it destroyed, but only in the
/// folder for deleted messages.
pub proof fn law_list_keys_change_the_selected_message(
    v: EmailListViewV,
    o: OutboxV,
    rows: u16,
)
    requires
        !v.search_mode,
        !v.move_mode,
        o.open,
        v.cursor < v.emails.len(),
        forall|j: int| 0 <= j < v.cursor ==> (#[trigger] v.emails[j]).id != v.emails[v.cursor as int].id,
    ensures
        ({
            let c = v.cursor as int;
            let e = v.emails[c];
            let op_id = v.next_write_op_id;
            let (f, fo, _) = email_list_key(v, o, Key::Char('f'), rows);
            let (u, uo, _) = email_list_key(v, o, Key::Char('u'), rows);
            &&& sends(o, fo, other_flag(op_id, e))
            &&& toggled(v.emails, f.emails, c, "$flagged"@)
            &&& sends(o, uo, other_seen(op_id, e))
            &&& toggled(v.emails, u.emails, c, "$seen"@)
        }),
        ({
            let c = v.cursor as int;
            let e = v.emails[c];
            let op_id = v.next_write_op_id;
            let archive = resolved_mailbox(v.archive_folder, v.mailboxes);
            let deleted = resolved_mailbox(v.deleted_folder, v.mailboxes);
            let (a, ao, _) = email_list_key(v, o, Key::Char('a'), rows);
            let (d, do_, _) = email_list_key(v, o, Key::Char('d'), rows);
            let (x, xo, _) = email_list_key(v, o, Key::Char('D'), rows);
            let in_deleted = ascii_lower(v.mailbox_name) == ascii_lower(v.deleted_folder) || deleted
                == Some(v.mailbox_id);
            &&& archive is Some ==> a.emails == v.emails.remove(c) && sends(
                o,
                ao,
                BackendCommandV::MoveEmail { op_id, id: e.id, to_mailbox_id: archive->0 },
            )
            &&& archive is None ==> ao == o && a.emails == v.emails
            &&& deleted is Some ==> d.emails == v.emails.remove(c) && sends(
                o,
                do_,
                BackendCommandV::MoveEmail { op_id, id: e.id, to_mailbox_id: deleted->0 },
            )
            &&& deleted is None ==> do_ == o && d.emails == v.emails
            &&& in_deleted ==> x.emails == v.emails.remove(c) && sends(
                o,
                xo,
                BackendCommandV::DestroyEmail { op_id, id: e.id },
            )
            &&& !in_deleted ==> xo == o && x.emails == v.emails
        }),
{
    let c = v.cursor as int;
    let e = v.emails[c];
    lemma_first_index(v.emails, c, 0);
    lemma_mark(e, "$flagged"@, lookup(e.keywords, "$flagged"@) is None);
    lemma_mark(e, "$seen"@, lookup(e.keywords, "$seen"@) is None);
}

/// In the list of a mailbox, `g` asks for the first page anew, with the search that is
/// on; a search that is typed is asked for, and clearing it asks without it. `r` and `R`
/// ask for the selected message and make a reply of it, to the sender or to all; `e` has
/// the rules tried on the mailbox and `E` has them run. Down and up move the cursor by
/// one message.
pub proof fn law_list_keys_ask_for_what_they_say(
    v: EmailListViewV,
    o: OutboxV,
    rows: u16,
    e: EmailV,
    now: Seq<char>,
)
    requires
        !v.search_mode,
        !v.move_mode,
        o.open,
        v.cursor < v.emails.len() <= usize::MAX,
    ensures
        ({
            let id = v.emails[v.cursor as int].id;
            let page = |w: EmailListViewV, p: OutboxV, search: Option<Seq<char>>|
                {
                    &&& w.active_search == search
                    &&& p.sent.len() == o.sent.len() + 1 && p.sent.drop_last() == o.sent
                    &&& p.sent.last() matches BackendCommandV::QueryEmails {
                        mailbox_id,
                        page_size,
                        position,
                        search_query,
                        received_after,
                        received_before,
                        ..
                    } && mailbox_id == v.mailbox_id && page_size == v.page_size && position == 0
                        && search_query == search && received_after is None && received_before
                        is None
                };
            let typing = EmailListViewV { search_mode: true, ..v };
            let searching = EmailListViewV { active_search: Some(v.search_input), ..v };
            let (g, go, _) = email_list_key(v, o, Key::Char('g'), rows);
            let (t, to, _) = email_list_key(typing, o, Key::Enter, rows);
            let (q, qo, _) = email_list_key(searching, o, Key::Escape, rows);
            &&& page(g, go, v.active_search)
            &&& v.search_input.len() > 0 ==> page(t, to, Some(v.search_input)) && !t.search_mode
            &&& page(q, qo, None)
        }),
        ({
            let id = v.emails[v.cursor as int].id;
            let (r, ro, _) = email_list_key(v, o, Key::Char('r'), rows);
            let (a, ao, _) = email_list_key(v, o, Key::Char('R'), rows);
            let come = BackendResponseV::EmailForReply { id, result: Ok(e) };
            let replied = email_list_response(r, ro, come, now).0;
            let replied_all = email_list_response(a, ao, come, now).0;
            &&& sends(o, ro, BackendCommandV::GetEmailForReply { id })
            &&& sends(o, ao, BackendCommandV::GetEmailForReply { id })
            &&& replied.pending_compose == Some(reply_draft(e, false, v.reply_from_address))
            &&& replied_all.pending_compose == Some(reply_draft(e, true, v.reply_from_address))
        }),
        ({
            let (_, po, _) = email_list_key(v, o, Key::Char('e'), rows);
            let (_, ro, _) = email_list_key(v, o, Key::Char('E'), rows);
            let down = email_list_key(v, o, Key::Down, rows);
            let up = email_list_key(v, o, Key::Up, rows);
            &&& po.sent.len() == o.sent.len() + 1
            &&& po.sent.last() matches
                BackendCommandV::PreviewRulesForMailbox { mailbox_id, .. } && mailbox_id
                == v.mailbox_id
            &&& ro.sent.len() == o.sent.len() + 1
            &&& ro.sent.last() matches
                BackendCommandV::RunRulesForMailbox { mailbox_id, .. } && mailbox_id
                == v.mailbox_id
            &&& v.cursor + 1 < v.emails.len() ==> down.0.cursor == v.cursor + 1 && down.1 == o
            &&& v.cursor > 0 ==> up.0.cursor == v.cursor - 1 && up.1 == o
            &&& email_list_key(v, o, Key::Char('q'), rows).2 is Pop
            &&& email_list_key(v, o, Key::Char('c'), rows).2 == ViewActionV::Compose(
                compose_draft(v.reply_from_address),
            )
        }),
{
    let sent = |cmd: BackendCommandV| OutboxV { sent: o.sent.push(cmd), ..o };
    assert forall|cmd: BackendCommandV| (#[trigger] o.sent.push(cmd)).drop_last() == o.sent by {
        assert(o.sent.push(cmd).drop_last() =~= o.sent);
    }
}

/// In the list of a mailbox, enter opens the selected message: it is asked for and, if it
/// is unread, marked as read. A message that stands for a thread opens the thread.
pub proof fn law_enter_opens_the_selected_message(v: EmailListViewV, o: OutboxV, rows: u16)
    requires
        !v.search_mode,
        !v.move_mode,
        o.open,
        v.cursor < v.emails.len(),
    ensures
        ({
            let e = v.emails[v.cursor as int];
            let counts = match e.thread_id {
                Some(t) => lookup(v.thread_counts, t),
                None => None,
            };
            let several = counts is Some && (counts->0).1 > 1;
            let (_, p, action) = email_list_key(v, o, Key::Enter, rows);
            let op_id = v.next_write_op_id;
            let get = o.sent.push(BackendCommandV::GetEmail { id: e.id });
            &&& action is Push
            &&& several ==> sends(
                o,
                p,
                BackendCommandV::QueryThreadEmails { thread_id: e.thread_id->0 },
            )
            &&& !several && lookup(e.keywords, "$seen"@) is Some ==> p.sent == get
            &&& !several && lookup(e.keywords, "$seen"@) is None ==> p.sent == get.push(
                BackendCommandV::MarkEmailRead { op_id, id: e.id },
            )
        }),
{
}

/// While a mailbox is picked, enter has the selected message moved to the one at the
/// cursor, and it leaves the list.
pub proof fn law_picked_mailbox_gets_the_message(v: EmailListViewV, o: OutboxV, rows: u16)
    requires
        !v.search_mode,
        v.move_mode,
        o.open,
        v.cursor < v.emails.len(),
        v.move_cursor < v.mailboxes.len(),
    ensures
        ({
            let (w, p, _) = email_list_key(v, o, Key::Enter, rows);
            let c = v.cursor as int;
            &&& !w.move_mode
            &&& w.emails == v.emails.remove(c)
            &&& sends(
                o,
                p,
                BackendCommandV::MoveEmail {
                    op_id: v.next_write_op_id,
                    id: v.emails[c].id,
                    to_mailbox_id: v.mailboxes[v.move_cursor as int].id,
                },
            )
            &&& email_list_key(v, o, Key::Escape, rows).1 == o
        }),
{
}

/// The first page that comes replaces the list; what comes for another mailbox is left
/// alone; a failure keeps the messages that are there.
pub proof fn law_list_shows_the_page_that_came(
    v: EmailListViewV,
    o: OutboxV,
    mailbox_id: Seq<char>,
    emails: Seq<EmailV>,
    total: Option<u32>,
    loaded: u32,
    counts: Seq<(Seq<char>, (usize, usize))>,
    e: Seq<char>,
    now: Seq<char>,
)
    ensures
        ({
            let page = |r: Result<Seq<EmailV>, Seq<char>>|
                BackendResponseV::Emails {
                    mailbox_id,
                    emails: r,
                    total,
                    position: 0,
                    loaded,
                    thread_counts: counts,
                };
            let (w, p, mine) = email_list_response(v, o, page(Ok(emails)), now);
            let (x, q, _) = email_list_response(v, o, page(Err(e)), now);
            &&& mine == (mailbox_id == v.mailbox_id)
            &&& mine ==> w.emails == emails && w.total == total && w.thread_counts == counts
                && !w.loading && w.error is None
            &&& !mine ==> w == v && x == v
            &&& x.emails == v.emails
            &&& mine ==> x.error == Some("Failed to fetch emails: "@ + e)
            &&& p == o && q == o
        }),
{
}

// ---------------------------------------------------------------------------
// A thread
// ---------------------------------------------------------------------------

/// In the list of a thread, the keys that change the selected message do what they do in
/// the list of a mailbox.
pub proof fn law_thread_keys_change_the_selected_message(
    v: ThreadViewV,
    o: OutboxV,
    rows: u16,
)
    requires
        o.open,
        v.cursor < v.emails.len(),
        forall|j: int| 0 <= j < v.cursor ==> (#[trigger] v.emails[j]).id != v.emails[v.cursor as int].id,
    ensures
        ({
            let c = v.cursor as int;
            let e = v.emails[c];
            let op_id = v.next_write_op_id;
            let (f, fo, _) = thread_view_key(v, o, Key::Char('f'), rows);
            let (u, uo, _) = thread_view_key(v, o, Key::Char('u'), rows);
            &&& sends(o, fo, other_flag(op_id, e))
            &&& toggled(v.emails, f.emails, c, "$flagged"@)
            &&& sends(o, uo, other_seen(op_id, e))
            &&& toggled(v.emails, u.emails, c, "$seen"@)
        }),
        ({
            let c = v.cursor as int;
            let e = v.emails[c];
            let op_id = v.next_write_op_id;
            let archive = resolved_mailbox(v.archive_folder, v.mailboxes);
            let deleted = resolved_mailbox(v.deleted_folder, v.mailboxes);
            let (a, ao, _) = thread_view_key(v, o, Key::Char('a'), rows);
            let (d, do_, _) = thread_view_key(v, o, Key::Char('d'), rows);
            let (x, xo, _) = thread_view_key(v, o, Key::Char('D'), rows);
            let (_, go, _) = thread_view_key(v, o, Key::Char('g'), rows);
            let (_, eo, _) = thread_view_key(v, o, Key::Enter, rows);
            &&& archive is Some ==> a.emails == v.emails.remove(c) && sends(
                o,
                ao,
                BackendCommandV::MoveEmail { op_id, id: e.id, to_mailbox_id: archive->0 },
            )
            &&& archive is None ==> ao == o && a.emails == v.emails
            &&& deleted is Some ==> d.emails == v.emails.remove(c) && sends(
                o,
                do_,
                BackendCommandV::MoveEmail { op_id, id: e.id, to_mailbox_id: deleted->0 },
            )
            &&& deleted is None ==> do_ == o && d.emails == v.emails
            &&& v.can_expire_now ==> x.emails == v.emails.remove(c) && sends(
                o,
                xo,
                BackendCommandV::DestroyEmail { op_id, id: e.id },
            )
            &&& !v.can_expire_now ==> xo == o && x.emails == v.emails
            &&& sends(o, go, BackendCommandV::QueryThreadEmails { thread_id: v.thread_id })
            &&& eo.sent.len() > o.sent.len() && eo.sent[o.sent.len() as int] == (
            BackendCommandV::GetEmail { id: e.id })
        }),
{
    let c = v.cursor as int;
    let e = v.emails[c];
    lemma_first_index(v.emails, c, 0);
    lemma_mark(e, "$flagged"@, lookup(e.keywords, "$flagged"@) is None);
    lemma_mark(e, "$seen"@, lookup(e.keywords, "$seen"@) is None);
}

// ---------------------------------------------------------------------------
// A message
// ---------------------------------------------------------------------------

/// In the view of a message, `f` and `u` turn its flag and its reading mark round; `a`
/// and `d` have it moved to the folder for archived or for deleted messages and leave the
/// view, and `D` has it destroyed where that is allowed. In the view of a thread they
/// move or destroy the whole thread.
pub proof fn law_message_keys_change_the_message(v: EmailViewV, o: OutboxV, rows: u16, e: EmailV)
    requires
        !v.attachment_picking,
        !v.move_mode,
        o.open,
        v.email == Some(e),
        e.id == v.email_id,
    ensures
        ({
            let op_id = v.next_write_op_id;
            let (f, fo, _) = email_view_key(v, o, Key::Char('f'), rows);
            let (u, uo, _) = email_view_key(v, o, Key::Char('u'), rows);
            &&& sends(o, fo, other_flag(op_id, e))
            &&& f.email is Some && same_but_keyword(e, f.email->0, "$flagged"@)
            &&& lookup(f.email->0.keywords, "$flagged"@) is Some <==> lookup(
                e.keywords,
                "$flagged"@,
            ) is None
            &&& sends(o, uo, other_seen(op_id, e))
            &&& u.email is Some && same_but_keyword(e, u.email->0, "$seen"@)
            &&& lookup(u.email->0.keywords, "$seen"@) is Some <==> lookup(e.keywords, "$seen"@)
                is None
        }),
        ({
            let op_id = v.next_write_op_id;
            let moves = |to: Seq<char>|
                match v.thread_id {
                    Some(thread_id) => BackendCommandV::MoveThread {
                        op_id,
                        thread_id,
                        to_mailbox_id: to,
                    },
                    None => BackendCommandV::MoveEmail { op_id, id: v.email_id, to_mailbox_id: to },
                };
            let destroys = match v.thread_id {
                Some(thread_id) => BackendCommandV::DestroyThread { op_id, thread_id },
                None => BackendCommandV::DestroyEmail { op_id, id: v.email_id },
            };
            let archive = resolved_mailbox(v.archive_folder, v.mailboxes);
            let deleted = resolved_mailbox(v.deleted_folder, v.mailboxes);
            let (_, ao, aa) = email_view_key(v, o, Key::Char('a'), rows);
            let (_, do_, da) = email_view_key(v, o, Key::Char('d'), rows);
            let (_, xo, xa) = email_view_key(v, o, Key::Char('D'), rows);
            &&& archive is Some ==> sends(o, ao, moves(archive->0)) && aa is Pop
            &&& archive is None ==> ao == o && !(aa is Pop)
            &&& deleted is Some ==> sends(o, do_, moves(deleted->0)) && da is Pop
            &&& deleted is None ==> do_ == o && !(da is Pop)
            &&& v.can_expire_now ==> sends(o, xo, destroys) && xa is Pop
            &&& !v.can_expire_now ==> xo == o && !(xa is Pop)
        }),
{
    lemma_mark(e, "$flagged"@, lookup(e.keywords, "$flagged"@) is None);
    lemma_mark(e, "$seen"@, lookup(e.keywords, "$seen"@) is None);
}

/// In the view of a message, `r`, `R` and `F` ask for the message and make of it a reply
/// to the sender, a reply to all, or a message to forward.
pub proof fn law_message_keys_make_drafts(v: EmailViewV, o: OutboxV, rows: u16, e: EmailV)
    requires
        !v.attachment_picking,
        !v.move_mode,
        !v.pending_forward,
        o.open,
    ensures
        ({
            let ask = BackendCommandV::GetEmailForReply { id: v.email_id };
            let come = BackendResponseV::EmailForReply { id: v.email_id, result: Ok(e) };
            let (r, ro, _) = email_view_key(v, o, Key::Char('r'), rows);
            let (a, ao, _) = email_view_key(v, o, Key::Char('R'), rows);
            let (f, fo, _) = email_view_key(v, o, Key::Char('F'), rows);
            let from = v.reply_from_address;
            &&& sends(o, ro, ask) && sends(o, ao, ask) && sends(o, fo, ask)
            &&& email_view_response(r, ro, come).0.pending_compose == Some(
                reply_draft(e, false, from),
            )
            &&& email_view_response(a, ao, come).0.pending_compose == Some(
                reply_draft(e, true, from),
            )
            &&& email_view_response(f, fo, come).0.pending_compose == Some(forward_draft(e, from))
            &&& email_view_key(v, o, Key::Char('c'), rows).2 == ViewActionV::Compose(
                compose_draft(from),
            )
        }),
{
}

// ---------------------------------------------------------------------------
// The mailboxes
// ---------------------------------------------------------------------------

/// In the list of mailboxes, enter opens the selected one and asks for its first page;
/// `u` has it marked as read if it has unread messages; a new folder is made under the
/// name that was typed, without the white space around it; a folder is removed only once
/// that is confirmed; `x` previews the retention policies and `X` carries them out.
pub proof fn law_mailbox_keys_ask_for_what_they_say(
    v: MailboxListViewV,
    o: OutboxV,
    rows: u16,
)
    requires
        !v.create_mode,
        !v.delete_confirm_mode,
        o.open,
        v.cursor < v.mailboxes.len(),
    ensures
        ({
            let m = v.mailboxes[v.cursor as int];
            let (_, p, action) = mailbox_list_key(v, o, Key::Enter, rows);
            let (_, u, _) = mailbox_list_key(v, o, Key::Char('u'), rows);
            &&& p.sent.len() == o.sent.len() + 1
            &&& p.sent.last() matches
                BackendCommandV::QueryEmails {
                mailbox_id,
                page_size,
                position,
                search_query,
                received_after,
                received_before,
                ..
            } && mailbox_id == m.id && page_size == v.page_size && position == 0 && search_query
                is None && received_after is None && received_before is None
            &&& action matches ViewActionV::Push(AnyViewV::Emails(w)) && w.mailbox_id == m.id
                && w.mailbox_name == m.name && w.archive_folder == v.archive_folder
                && w.deleted_folder == v.deleted_folder
            &&& m.unread_emails > 0 ==> sends(
                o,
                u,
                BackendCommandV::MarkMailboxRead { mailbox_id: m.id, mailbox_name: m.name },
            )
            &&& m.unread_emails == 0 ==> u == o
        }),
        ({
            let m = v.mailboxes[v.cursor as int];
            let asked = mailbox_list_key(v, o, Key::Char('d'), rows);
            let yes = mailbox_list_key(asked.0, asked.1, Key::Char('y'), rows);
            let no = mailbox_list_key(asked.0, asked.1, Key::Char('n'), rows);
            let typing = MailboxListViewV { create_mode: true, ..v };
            let name = trimmed(v.create_input);
            let made = mailbox_list_key(typing, o, Key::Enter, rows);
            let preview = mailbox_list_key(v, o, Key::Char('x'), rows);
            let expire = mailbox_list_key(v, o, Key::Char('X'), rows);
            &&& asked.1 == o
            &&& sends(o, yes.1, BackendCommandV::DeleteMailbox { id: m.id, name: m.name })
            &&& no.1 == o && !no.0.delete_confirm_mode
            &&& name.len() > 0 ==> sends(o, made.1, BackendCommandV::CreateMailbox { name })
            &&& name.len() == 0 ==> made.1 == o
            &&& sends(
                o,
                preview.1,
                BackendCommandV::PreviewRetentionExpiry { policies: v.retention_policies },
            )
            &&& sends(
                o,
                expire.1,
                BackendCommandV::ExecuteRetentionExpiry { policies: v.retention_policies },
            )
        }),
{
}

/// The mailboxes are listed by what they are for, the inbox before all others and those
/// for drafts, sent mail, unwanted mail, deleted and archived messages in this order,
/// those with another role behind them, and those with none last.
pub proof fn law_roles_come_in_order(a: MailboxV, b: MailboxV)
    requires
        a.role is Some,
        b.role is Some,
    ensures
        ({
            let before = mailbox_le(a, b) && !mailbox_le(b, a);
            let x = a.role->0;
            let y = b.role->0;
            &&& x == "inbox"@ && y == "drafts"@ ==> before
            &&& x == "drafts"@ && y == "sent"@ ==> before
            &&& x == "sent"@ && y == "junk"@ ==> before
            &&& x == "junk"@ && y == "trash"@ ==> before
            &&& x == "trash"@ && y == "archive"@ ==> before
            &&& x == "archive"@ ==> mailbox_le(a, MailboxV { role: None, ..b }) && !mailbox_le(
                MailboxV { role: None, ..b },
                a,
            )
        }),
{
    reveal_strlit("inbox");
    reveal_strlit("drafts");
    reveal_strlit("sent");
    reveal_strlit("junk");
    reveal_strlit("trash");
    reveal_strlit("archive");
    assert("inbox"@.len() == 5 && "drafts"@.len() == 6 && "sent"@.len() == 4 && "junk"@.len() == 4);
    assert("trash"@.len() == 5 && "archive"@.len() == 7);
    assert("inbox"@[0] == 'i' && "trash"@[0] == 't' && "sent"@[0] == 's' && "junk"@[0] == 'j');
}

// ---------------------------------------------------------------------------
// Keeping up with the server
// ---------------------------------------------------------------------------

/// From time to time the list on top asks again for what it shows: a list of messages for
/// the first page of its mailbox and its search, a list of mailboxes for the mailboxes.
/// While something is being loaded, picked or typed, nothing is asked, and nothing of what
/// is on the screen changes.
pub proof fn law_lists_keep_up(w: EmailListViewV, m: MailboxListViewV, o: OutboxV)
    requires
        o.open,
    ensures
        ({
            let (v, p, render) = view_sync(AnyViewV::Emails(w), o);
            if w.loading || w.move_mode || w.search_mode {
                v == AnyViewV::Emails(w) && p == o && !render
            } else {
                &&& render
                &&& v matches AnyViewV::Emails(x) && x.loading && x.emails == w.emails && x.cursor
                    == w.cursor && x.mailbox_id == w.mailbox_id && x.active_search
                    == w.active_search
                &&& p.sent.len() == o.sent.len() + 1 && p.sent.drop_last() == o.sent
                &&& p.sent.last() matches BackendCommandV::QueryEmails {
                    mailbox_id,
                    page_size,
                    position,
                    search_query,
                    ..
                } && mailbox_id == w.mailbox_id && page_size == w.page_size && position == 0
                    && search_query == w.active_search
            }
        }),
        ({
            let (v, p, render) = view_sync(AnyViewV::Mailboxes(m), o);
            if m.loading || m.create_mode || m.delete_confirm_mode {
                v == AnyViewV::Mailboxes(m) && p == o && !render
            } else {
                &&& render
                &&& v == AnyViewV::Mailboxes(MailboxListViewV { loading: true, ..m })
                &&& p.sent.len() == o.sent.len() + 1 && p.sent.drop_last() == o.sent
                &&& p.sent.last() is FetchMailboxes
            }
        }),
{
    let p = view_sync(AnyViewV::Emails(w), o).1;
    if !(w.loading || w.move_mode || w.search_mode) {
        assert(p.sent.drop_last() =~= o.sent);
    }
    let q = view_sync(AnyViewV::Mailboxes(m), o).1;
    if !(m.loading || m.create_mode || m.delete_confirm_mode) {
        assert(q.sent.drop_last() =~= o.sent);
    }
}

/// A mailbox is listed by its name, with how many of its messages are unread and how many
/// there are; without unread messages only with how many there are, and an empty one by
/// its name alone.
pub proof fn law_mailbox_is_listed_with_its_counts(m: MailboxV)
    ensures
        begins(mailbox_line(m), m.name),
        ({
            let counts = mailbox_line(m).skip(m.name.len() as int);
            let total = decimal(m.total_emails as nat);
            &&& m.unread_emails > 0 ==> counts == " ("@ + decimal(m.unread_emails as nat) + "/"@
                + total + ")"@
            &&& m.unread_emails == 0 && m.total_emails > 0 ==> counts == " ("@ + total + ")"@
            &&& m.unread_emails == 0 && m.total_emails == 0 ==> counts.len() == 0
        }),
{
    let line = mailbox_line(m);
    let total = decimal(m.total_emails as nat);
    let n = m.name.len() as int;
    assert(line.subrange(0, n) =~= m.name);
    if m.unread_emails > 0 {
        assert(line.skip(n) =~= " ("@ + decimal(m.unread_emails as nat) + "/"@ + total + ")"@);
    } else if m.total_emails > 0 {
        assert(line.skip(n) =~= " ("@ + total + ")"@);
    } else {
        assert(line.skip(n) =~= Seq::empty());
    }
}

// ---------------------------------------------------------------------------
// More of a list
// ---------------------------------------------------------------------------

proof fn lemma_appended(emails: Seq<EmailV>, others: Seq<EmailV>, k: int)
    requires
        0 <= k <= others.len(),
    ensures
        ({
            let all = appended(emails, others, k);
            &&& emails.len() <= all.len() <= emails.len() + k
            &&& all.take(emails.len() as int) == emails
            &&& forall|i: int| 0 <= i < k ==> exists|j: int|
                0 <= j < all.len() && #[trigger] all[j].id == (#[trigger] others[i]).id
            &&& forall|j: int| emails.len() <= j < all.len() ==> others.contains(#[trigger] all[j])
        }),
    decreases k,
{
    if k > 0 {
        lemma_appended(emails, others, k - 1);
        let before = appended(emails, others, k - 1);
        let all = appended(emails, others, k);
        let e = others[k - 1];
        lemma_email_index(before, e.id, 0);
        assert(all.take(emails.len() as int) =~= before.take(emails.len() as int));
        assert forall|i: int| 0 <= i < k implies exists|j: int|
            0 <= j < all.len() && #[trigger] all[j].id == (#[trigger] others[i]).id by {
            if i < k - 1 {
                let j = choose|j: int| 0 <= j < before.len() && #[trigger] before[j].id == others[i].id;
                assert(all[j].id == others[i].id);
            } else if email_index(before, e.id, 0) < before.len() {
                lemma_index_has_id(before, e.id, 0);
                assert(all[email_index(before, e.id, 0)].id == e.id);
            } else {
                assert(all[all.len() - 1].id == e.id);
            }
        }
        assert forall|j: int| emails.len() <= j < all.len() implies others.contains(
            #[trigger] all[j],
        ) by {
            if j < before.len() {
                assert(all[j] == before[j]);
            } else {
                assert(all[j] == others[k - 1]);
            }
        }
    } else {
        assert(emails.take(emails.len() as int) =~= emails);
    }
}

proof fn lemma_index_has_id(s: Seq<EmailV>, id: Seq<char>, i: int)
    requires
        0 <= i,
        email_index(s, id, i) < s.len(),
    ensures
        i <= email_index(s, id, i),
        s[email_index(s, id, i)].id == id,
    decreases s.len() - i,
{
    if i < s.len() && s[i].id != id {
        lemma_index_has_id(s, id, i + 1);
    }
}

/// `l` asks for the messages behind those that were loaded, of the same mailbox and
/// search, as long as there are more. When they come, the listed ones stay in place, every
/// message that came is listed, and nothing else is; the next ones are asked for from
/// where these end.
pub proof fn law_more_is_listed_behind(
    v: EmailListViewV,
    o: OutboxV,
    rows: u16,
    emails: Seq<EmailV>,
    total: Option<u32>,
    position: u32,
    loaded: u32,
    counts: Seq<(Seq<char>, (usize, usize))>,
    now: Seq<char>,
)
    requires
        !v.search_mode,
        !v.move_mode,
        !v.loading,
        o.open,
        0 < v.emails.len() <= u32::MAX,
        0 < position,
        position + loaded <= u32::MAX,
    ensures
        ({
            let (w, p, _) = email_list_key(v, o, Key::Char('l'), rows);
            let more = match v.total {
                Some(n) => v.emails.len() < n,
                None => v.last_loaded_count >= v.page_size,
            };
            &&& !more ==> w == v && p == o
            &&& more ==> w.loading && w.emails == v.emails && p.sent.len() == o.sent.len() + 1
            &&& more ==> (p.sent.last() matches BackendCommandV::QueryEmails {
                mailbox_id,
                page_size,
                position: from,
                search_query,
                ..
            } && mailbox_id == v.mailbox_id && page_size == v.page_size && from
                == v.next_query_position && search_query == v.active_search)
        }),
        ({
            let come = BackendResponseV::Emails {
                mailbox_id: v.mailbox_id,
                emails: Ok(emails),
                total,
                position,
                loaded,
                thread_counts: counts,
            };
            let w = email_list_response(v, o, come, now).0;
            &&& w.emails.len() >= v.emails.len()
            &&& w.emails.take(v.emails.len() as int) == v.emails
            &&& forall|i: int| 0 <= i < emails.len() ==> exists|j: int|
                0 <= j < w.emails.len() && #[trigger] w.emails[j].id == (#[trigger] emails[i]).id
            &&& forall|j: int| v.emails.len() <= j < w.emails.len() ==> emails.contains(
                #[trigger] w.emails[j],
            )
            &&& w.next_query_position == position + loaded
            &&& w.total == total && !w.loading
        }),
{
    lemma_appended(v.emails, emails, emails.len() as int);
}

/// `t` lists the messages of the selected one's thread that are in this mailbox, where
/// there is more than one; `T` lists those of every mailbox. Either asks for the thread.
pub proof fn law_thread_is_listed(v: EmailListViewV, o: OutboxV, rows: u16, n: (usize, usize))
    requires
        !v.search_mode,
        !v.move_mode,
        o.open,
        v.cursor < v.emails.len(),
        v.emails[v.cursor as int].thread_id is Some,
        lookup(v.thread_counts, v.emails[v.cursor as int].thread_id->0) == Some(n),
        n.1 > 1,
    ensures
        ({
            let id = v.emails[v.cursor as int].thread_id->0;
            let (_, p, here) = email_list_key(v, o, Key::Char('t'), rows);
            let (_, q, all) = email_list_key(v, o, Key::Char('T'), rows);
            &&& sends(o, p, BackendCommandV::QueryThreadEmails { thread_id: id })
            &&& sends(o, q, BackendCommandV::QueryThreadEmails { thread_id: id })
            &&& here matches ViewActionV::Push(AnyViewV::Thread(w)) && w.thread_id == id
                && w.filter_mailbox_id == Some(v.mailbox_id) && w.archive_folder
                == v.archive_folder && w.deleted_folder == v.deleted_folder
            &&& all matches ViewActionV::Push(AnyViewV::Thread(w)) && w.thread_id == id
                && w.filter_mailbox_id is None && w.archive_folder == v.archive_folder
                && w.deleted_folder == v.deleted_folder
        }),
{
}

proof fn lemma_name_at(names: Seq<Seq<char>>, i: int, k: int)
    requires
        0 <= k <= i < names.len(),
        forall|j: int| 0 <= j < i ==> #[trigger] names[j] != names[i],
    ensures
        account_index(names, names[i], k) == i,
    decreases i - k,
{
    if k < i {
        assert(names[k] != names[i]);
        lemma_name_at(names, i, k + 1);
    }
}

/// `a` goes from an account to the next one, and from the last one to the first; with one
/// account it does nothing. `g` asks for the mailboxes again, and `q` ends the program.
pub proof fn law_accounts_go_round(v: MailboxListViewV, o: OutboxV, rows: u16, i: int)
    requires
        !v.create_mode,
        !v.delete_confirm_mode,
        o.open,
        0 <= i < v.account_names.len(),
        v.account_names[i] == v.current_account,
        forall|j: int| 0 <= j < i ==> #[trigger] v.account_names[j] != v.account_names[i],
    ensures
        ({
            let n = v.account_names.len();
            let (_, p, action) = mailbox_list_key(v, o, Key::Char('a'), rows);
            let (g, q, _) = mailbox_list_key(v, o, Key::Char('g'), rows);
            &&& p == o
            &&& n == 1 ==> action is Continue
            &&& n > 1 && i + 1 < n ==> action == ViewActionV::SwitchAccount(v.account_names[i + 1])
            &&& n > 1 && i + 1 == n ==> action == ViewActionV::SwitchAccount(v.account_names[0])
            &&& g.loading && q.sent.len() == o.sent.len() + 1 && q.sent.last() is FetchMailboxes
            &&& mailbox_list_key(v, o, Key::Char('q'), rows).2 is Quit
        }),
{
    lemma_name_at(v.account_names, i, 0);
}

} // verus!
