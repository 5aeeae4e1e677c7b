//! The session of commands and answers: which operation of the backend a command asks
//! for, and what the answer tells of its outcome.

use vstd::prelude::*;

use crate::backend::offline::offline_outcome;
use crate::backend::queue::next_id;
use crate::backend::{BackendCommandV, BackendResponseV, EmailMutationAction};
use crate::cache::CacheV;
use crate::cli::{
    broken_off, email_json, input_taken, plan_position, responded, suggested_upto, CliStateV,
    CliStepV, TriagePlanV, WaitingV,
};
use crate::compose::{body_text, compose_draft, forward_draft, reply_draft};
use crate::config::AccountConfigV;
use crate::data::{lookup, with_entry};
use crate::jmap::types::{EmailV, MailboxV};
use crate::json::{bool_field, field, number_field, text_field, JsonV};
use crate::laws::offline::{
    law_mark_changes_one_message, law_moved_message_is_kept,
    law_offline_change_is_shown_and_answered,
};
use crate::rules::{resolved_mailbox, suggestion_from, TriageHintActionDef};

verus! {

/// Every name of a command differs from the others in its length or its first letter.
proof fn lemma_command_names()
    ensures
        "list_accounts"@.len() == 13 && "list_accounts"@[0] == 'l',
        "connect"@.len() == 7 && "connect"@[0] == 'c',
        "status"@.len() == 6 && "status"@[0] == 's',
        "list_mailboxes"@.len() == 14 && "list_mailboxes"@[0] == 'l',
        "create_mailbox"@.len() == 14 && "create_mailbox"@[0] == 'c',
        "delete_mailbox"@.len() == 14 && "delete_mailbox"@[0] == 'd',
        "query_emails"@.len() == 12 && "query_emails"@[0] == 'q',
        "mark_mailbox_read"@.len() == 17 && "mark_mailbox_read"@[0] == 'm',
        "get_email"@.len() == 9 && "get_email"@[0] == 'g',
        "get_raw_headers"@.len() == 15 && "get_raw_headers"@[0] == 'g',
        "reply_draft"@.len() == 11 && "reply_draft"@[0] == 'r',
        "forward_draft"@.len() == 13 && "forward_draft"@[0] == 'f',
        "get_thread"@.len() == 10 && "get_thread"@[0] == 'g',
        "download_attachment"@.len() == 19 && "download_attachment"@[0] == 'd',
        "mark_read"@.len() == 9 && "mark_read"@[0] == 'm',
        "mark_unread"@.len() == 11 && "mark_unread"@[0] == 'm',
        "flag"@.len() == 4 && "flag"@[0] == 'f',
        "unflag"@.len() == 6 && "unflag"@[0] == 'u',
        "move_email"@.len() == 10 && "move_email"@[0] == 'm',
        "archive"@.len() == 7 && "archive"@[0] == 'a',
        "delete_email"@.len() == 12 && "delete_email"@[0] == 'd',
        "bulk_archive"@.len() == 12 && "bulk_archive"@[0] == 'b',
        "bulk_delete_email"@.len() == 17 && "bulk_delete_email"@[0] == 'b',
        "triage_suggest"@.len() == 14 && "triage_suggest"@[0] == 't',
        "apply_triage_plan"@.len() == 17 && "apply_triage_plan"@[0] == 'a',
        "destroy"@.len() == 7 && "destroy"@[0] == 'd',
        "compose_draft"@.len() == 13 && "compose_draft"@[0] == 'c',
        "keybindings"@.len() == 11 && "keybindings"@[0] == 'k',
{
    reveal_strlit("list_accounts");
    reveal_strlit("connect");
    reveal_strlit("status");
    reveal_strlit("list_mailboxes");
    reveal_strlit("create_mailbox");
    reveal_strlit("delete_mailbox");
    reveal_strlit("query_emails");
    reveal_strlit("mark_mailbox_read");
    reveal_strlit("get_email");
    reveal_strlit("get_raw_headers");
    reveal_strlit("reply_draft");
    reveal_strlit("forward_draft");
    reveal_strlit("get_thread");
    reveal_strlit("download_attachment");
    reveal_strlit("mark_read");
    reveal_strlit("mark_unread");
    reveal_strlit("flag");
    reveal_strlit("unflag");
    reveal_strlit("move_email");
    reveal_strlit("archive");
    reveal_strlit("delete_email");
    reveal_strlit("bulk_archive");
    reveal_strlit("bulk_delete_email");
    reveal_strlit("triage_suggest");
    reveal_strlit("apply_triage_plan");
    reveal_strlit("destroy");
    reveal_strlit("compose_draft");
    reveal_strlit("keybindings");
}

/// What a command has the backend asked for, if it asks for something at once.
pub open spec fn sent(s: CliStateV, input: JsonV) -> Option<BackendCommandV> {
    match input_taken(s, Ok(input)).1 {
        CliStepV::Send { command, .. } => Some(command),
        _ => None,
    }
}

/// What the session does once the backend has answered what a command asked for.
pub open spec fn after_answer(s: CliStateV, input: JsonV, response: BackendResponseV) -> (
    CliStateV,
    CliStepV,
) {
    match input_taken(s, Ok(input)) {
        (t, CliStepV::Send { waiting, .. }) => responded(t, waiting, response),
        other => other,
    }
}

/// What a command is answered with at once, if it is.
pub open spec fn answered_at_once(s: CliStateV, input: JsonV) -> Option<JsonV> {
    match input_taken(s, Ok(input)).1 {
        CliStepV::Answer(j) => Some(j),
        _ => None,
    }
}

/// The entries of an answer.
pub open spec fn entries(j: JsonV) -> Seq<(Seq<char>, JsonV)> {
    match j {
        JsonV::Object(m) => m,
        _ => Seq::empty(),
    }
}

/// Whether an answer says that something went well, with some entries.
pub open spec fn is_ok_with(j: JsonV, told: Seq<(Seq<char>, JsonV)>) -> bool {
    j == JsonV::Object(told.push(("ok"@, JsonV::Bool(true))))
}

/// The answer that something went wrong.
pub open spec fn is_error(j: JsonV, e: Seq<char>) -> bool {
    j == JsonV::Object(seq![("ok"@, JsonV::Bool(false)), ("error"@, JsonV::Text(e))])
}

proof fn lemma_ok(m: Seq<(Seq<char>, JsonV)>)
    requires
        forall|i: int| 0 <= i < m.len() ==> (#[trigger] m[i]).0.len() != 2,
    ensures
        with_entry(m, "ok"@, JsonV::Bool(true)) == m.push(("ok"@, JsonV::Bool(true))),
{
    reveal_strlit("ok");
    crate::data::lemma_key_index(m, "ok"@, 0);
    assert("ok"@.len() == 2);
}

// ---------------------------------------------------------------------------
// Changes of a message
// ---------------------------------------------------------------------------

/// In a connected session, the commands that mark a message have the backend set or take
/// away that mark of the message that is named, under a number of its own: `flag` flags
/// it and `unflag` does not, `mark_read` marks it as read and `mark_unread` as unread;
/// `move_email` moves it to the mailbox that is named.
pub proof fn law_marks_are_sent_as_commanded(
    s: CliStateV,
    input: JsonV,
    id: Seq<char>,
    to: Seq<char>,
)
    requires
        s.connected,
        text_field(input, "id"@) == Some(id),
    ensures
        ({
            let c = text_field(input, "command"@);
            let op_id = next_id(s.next_op_id);
            &&& c == Some("flag"@) ==> sent(s, input) == Some(
                BackendCommandV::SetEmailFlagged { op_id, id, flagged: true },
            )
            &&& c == Some("unflag"@) ==> sent(s, input) == Some(
                BackendCommandV::SetEmailFlagged { op_id, id, flagged: false },
            )
            &&& c == Some("mark_read"@) ==> sent(s, input) == Some(
                BackendCommandV::MarkEmailRead { op_id, id },
            )
            &&& c == Some("mark_unread"@) ==> sent(s, input) == Some(
                BackendCommandV::MarkEmailUnread { op_id, id },
            )
            &&& c == Some("move_email"@) && text_field(input, "to_mailbox_id"@) == Some(to) ==> sent(
                s,
                input,
            ) == Some(BackendCommandV::MoveEmail { op_id, id, to_mailbox_id: to })
        }),
{
    lemma_command_names();
}

/// Without a server, the message shows what the session commanded: it is flagged after
/// `flag` and not after `unflag`, read after `mark_read` and unread after `mark_unread`,
/// and in the one mailbox after `move_email`.
pub proof fn law_commanded_change_shows(
    s: CliStateV,
    input: JsonV,
    id: Seq<char>,
    to: Seq<char>,
    c: CacheV,
    ms: Seq<MailboxV>,
    payload: Seq<u8>,
)
    requires
        s.connected,
        text_field(input, "id"@) == Some(id),
        lookup(c.emails, id) is Some,
        sent(s, input) is Some,
    ensures
        ({
            let name = text_field(input, "command"@);
            let after = offline_outcome(sent(s, input)->0, Some(c), ms, Ok(payload)).0->0;
            let e = lookup(after.emails, id)->0;
            let flagged = lookup(e.keywords, "$flagged"@) is Some;
            let seen = lookup(e.keywords, "$seen"@) is Some;
            &&& name == Some("flag"@) ==> flagged
            &&& name == Some("unflag"@) ==> !flagged
            &&& name == Some("mark_read"@) ==> seen
            &&& name == Some("mark_unread"@) ==> !seen
            &&& name == Some("move_email"@) && text_field(input, "to_mailbox_id"@) == Some(to)
                ==> e.mailbox_ids == seq![(to, true)]
        }),
{
    law_marks_are_sent_as_commanded(s, input, id, to);
    let op_id = next_id(s.next_op_id);
    let q = CacheV { op_queue: crate::cache::queued(c.op_queue, payload), ..c };
    law_mark_changes_one_message(q, op_id, id, true);
    law_mark_changes_one_message(q, op_id, id, false);
    law_moved_message_is_kept(q, op_id, id, to);
    law_offline_change_is_shown_and_answered(c, ms, payload, op_id, id, to, true, Seq::empty());
    law_offline_change_is_shown_and_answered(c, ms, payload, op_id, id, to, false, Seq::empty());
}

/// The mailbox that the settings name for archived or for deleted messages.
pub open spec fn configured_folder(s: CliStateV, archive: bool) -> Option<Seq<char>> {
    if archive {
        if s.archive_mailbox_id is Some {
            s.archive_mailbox_id
        } else {
            resolved_mailbox(s.archive_folder, s.cached_mailboxes)
        }
    } else {
        if s.deleted_mailbox_id is Some {
            s.deleted_mailbox_id
        } else {
            resolved_mailbox(s.deleted_folder, s.cached_mailboxes)
        }
    }
}

/// `archive` moves a message to the mailbox for archived messages and `delete_email` to
/// the one for deleted messages: the one that the settings name by its id, or else by its
/// name. Where it is not known, the mailboxes are listed first, and then the message is
/// moved there; a message is never destroyed by it.
pub proof fn law_archived_and_deleted_messages_are_moved(
    s: CliStateV,
    input: JsonV,
    id: Seq<char>,
    ms: Seq<MailboxV>,
)
    requires
        s.connected,
        text_field(input, "id"@) == Some(id),
    ensures
        ({
            let c = text_field(input, "command"@);
            let op_id = next_id(s.next_op_id);
            let archive = c == Some("archive"@);
            let to = configured_folder(s, archive);
            let listed = CliStateV { cached_mailboxes: ms, ..s };
            let then_to = configured_folder(listed, archive);
            let next = after_answer(s, input, BackendResponseV::Mailboxes(Ok(ms)));
            (c == Some("archive"@) || c == Some("delete_email"@)) ==> match to {
                Some(to_mailbox_id) => sent(s, input) == Some(
                    BackendCommandV::MoveEmail { op_id, id, to_mailbox_id },
                ),
                None => {
                    &&& sent(s, input) == Some(BackendCommandV::FetchMailboxes { origin: "cli"@ })
                    &&& next.0.cached_mailboxes == ms
                    &&& match then_to {
                        Some(to_mailbox_id) => next.1 is Send && next.1->command == (
                        BackendCommandV::MoveEmail { op_id, id, to_mailbox_id }),
                        None => next.1 is Answer,
                    }
                },
            }
        }),
{
    lemma_command_names();
    let ids = Seq::<Seq<char>>::empty().push(id);
    assert(ids[0] == id && ids.len() == 1);
}

/// A refused change is answered with the reason, and one that was made with its number,
/// the message and what was done.
pub proof fn law_change_is_answered(
    s: CliStateV,
    op_id: u64,
    id: Seq<char>,
    action: EmailMutationAction,
    e: Seq<char>,
)
    ensures
        ({
            let done = responded(
                s,
                WaitingV::Change,
                BackendResponseV::EmailMutation { op_id, id, action, result: Ok(()) },
            );
            let refused = responded(
                s,
                WaitingV::Change,
                BackendResponseV::EmailMutation { op_id, id, action, result: Err(e) },
            );
            &&& done.0 == s && refused.0 == s
            &&& done.1 matches CliStepV::Answer(j) && is_ok_with(
                j,
                seq![
                    ("op_id"@, JsonV::UInt(op_id)),
                    ("id"@, JsonV::Text(id)),
                    (
                        "action"@,
                        JsonV::Text(
                            match action {
                                EmailMutationAction::MarkRead => "MarkRead"@,
                                EmailMutationAction::MarkUnread => "MarkUnread"@,
                                EmailMutationAction::SetFlagged(true) => "SetFlagged(true)"@,
                                EmailMutationAction::SetFlagged(false) => "SetFlagged(false)"@,
                                EmailMutationAction::Move => "Move"@,
                                EmailMutationAction::Destroy => "Destroy"@,
                            },
                        ),
                    ),
                ],
            )
            &&& refused.1 matches CliStepV::Answer(j) && is_error(j, e)
        }),
{
    reveal_strlit("ok");
    reveal_strlit("op_id");
    reveal_strlit("id");
    reveal_strlit("action");
    let text = crate::cli::action_text(action);
    let m = seq![
        ("op_id"@, JsonV::UInt(op_id)),
        ("id"@, JsonV::Text(id)),
        ("action"@, JsonV::Text(text)),
    ];
    assert("op_id"@.len() == 5 && "action"@.len() == 6 && "id"@.len() == 2 && "ok"@.len() == 2);
    assert("id"@[0] == 'i' && "ok"@[0] == 'o');
    crate::data::lemma_key_index(m, "ok"@, 0);
    assert forall|i: int| 0 <= i < m.len() implies (#[trigger] m[i]).0 != "ok"@ by {}
    let n = Seq::<(Seq<char>, JsonV)>::empty().push(("op_id"@, JsonV::UInt(op_id))).push(
        ("id"@, JsonV::Text(id)),
    ).push(("action"@, JsonV::Text(text)));
    assert(n =~= m);
    let bad = Seq::<(Seq<char>, JsonV)>::empty().push(("ok"@, JsonV::Bool(false))).push(
        ("error"@, JsonV::Text(e)),
    );
    assert(bad =~= seq![("ok"@, JsonV::Bool(false)), ("error"@, JsonV::Text(e))]);
}

// ---------------------------------------------------------------------------
// Questions
// ---------------------------------------------------------------------------

/// A number that a command gives, or else another, as far as it fits.
pub open spec fn number_or(input: JsonV, key: Seq<char>, other: u64) -> u32 {
    match number_field(input, key) {
        Some(n) => n as u32,
        None => other as u32,
    }
}

/// In a connected session, the commands that ask for something ask the backend for it: a
/// page of the mailbox that is named, with the search and the dates that are given, fifty
/// from the first on unless it says otherwise; a message, a thread, the headers of a
/// message, or an attachment, by its id; the mailboxes; a mailbox to be made by its name
/// or removed by its id.
pub proof fn law_questions_are_sent_as_commanded(s: CliStateV, input: JsonV, x: Seq<char>)
    requires
        s.connected,
    ensures
        ({
            let c = text_field(input, "command"@);
            let given = |key: Seq<char>| text_field(input, key) == Some(x);
            &&& c == Some("query_emails"@) && given("mailbox_id"@) ==> sent(s, input) == Some(
                BackendCommandV::QueryEmails {
                    origin: "cli"@,
                    mailbox_id: x,
                    page_size: number_or(input, "limit"@, 50),
                    position: number_or(input, "position"@, 0),
                    search_query: text_field(input, "search"@),
                    received_after: text_field(input, "received_after"@),
                    received_before: text_field(input, "received_before"@),
                },
            )
            &&& c == Some("get_email"@) && given("id"@) ==> sent(s, input) == Some(
                BackendCommandV::GetEmail { id: x },
            )
            &&& c == Some("get_thread"@) && given("thread_id"@) ==> sent(s, input) == Some(
                BackendCommandV::QueryThreadEmails { thread_id: x },
            )
            &&& c == Some("get_raw_headers"@) && given("id"@) ==> sent(s, input) == Some(
                BackendCommandV::GetEmailRawHeaders { id: x },
            )
            &&& c == Some("list_mailboxes"@) ==> sent(s, input) == Some(
                BackendCommandV::FetchMailboxes { origin: "cli"@ },
            )
            &&& c == Some("create_mailbox"@) && given("name"@) ==> sent(s, input) == Some(
                BackendCommandV::CreateMailbox { name: x },
            )
            &&& c == Some("delete_mailbox"@) && given("mailbox_id"@) ==> sent(s, input) is Some
                && sent(s, input)->0 is DeleteMailbox && sent(s, input)->0->DeleteMailbox_id == x
            &&& c == Some("mark_mailbox_read"@) && given("mailbox_id"@) ==> sent(s, input) is Some
                && sent(s, input)->0 is MarkMailboxRead
                && sent(s, input)->0->MarkMailboxRead_mailbox_id == x
            &&& c == Some("download_attachment"@) && given("blob_id"@) ==> sent(s, input) == Some(
                BackendCommandV::DownloadAttachment {
                    blob_id: x,
                    name: match text_field(input, "name"@) {
                        Some(n) => n,
                        None => "attachment"@,
                    },
                    content_type: match text_field(input, "content_type"@) {
                        Some(t) => t,
                        None => "application/octet-stream"@,
                    },
                },
            )
        }),
{
    lemma_command_names();
}

/// A draft of a reply or of a forwarded message is made of the message that is named, for
/// the user that is connected; a reply goes to all if the command says so. A draft of a
/// new message is answered at once.
pub proof fn law_drafts_are_answered(
    s: CliStateV,
    input: JsonV,
    id: Seq<char>,
    user: Seq<char>,
    e: EmailV,
)
    requires
        s.connected,
        s.connected_username == Some(user),
        text_field(input, "id"@) == Some(id),
    ensures
        ({
            let c = text_field(input, "command"@);
            let all = bool_field(input, "reply_all"@) == Some(true);
            let response = BackendResponseV::EmailForReply { id, result: Ok(e) };
            let next = after_answer(s, input, response);
            let told = |draft: Seq<char>| seq![("draft"@, JsonV::Text(draft))];
            &&& c == Some("reply_draft"@) || c == Some("forward_draft"@) ==> sent(s, input) == Some(
                BackendCommandV::GetEmailForReply { id },
            )
            &&& c == Some("reply_draft"@) ==> (next.1 matches CliStepV::Answer(j) && is_ok_with(
                j,
                told(reply_draft(e, all, user)),
            ))
            &&& c == Some("forward_draft"@) ==> (next.1 matches CliStepV::Answer(j) && is_ok_with(
                j,
                told(forward_draft(e, user)),
            ))
            &&& c == Some("compose_draft"@) ==> answered_at_once(s, input) is Some && is_ok_with(
                answered_at_once(s, input)->0,
                told(compose_draft(user)),
            )
        }),
{
    lemma_command_names();
    reveal_strlit("draft");
    assert("draft"@.len() == 5);
    let all = bool_field(input, "reply_all"@) == Some(true);
    lemma_one_entry("draft"@, JsonV::Text(reply_draft(e, all, user)));
    lemma_one_entry("draft"@, JsonV::Text(forward_draft(e, user)));
    lemma_one_entry("draft"@, JsonV::Text(compose_draft(user)));
}

proof fn lemma_one_entry(key: Seq<char>, value: JsonV)
    requires
        key.len() != 2,
    ensures
        with_entry(
            Seq::<(Seq<char>, JsonV)>::empty().push((key, value)),
            "ok"@,
            JsonV::Bool(true),
        ) == seq![(key, value)].push(("ok"@, JsonV::Bool(true))),
{
    let m = Seq::<(Seq<char>, JsonV)>::empty().push((key, value));
    assert(m =~= seq![(key, value)]);
    assert(m[0].0 == key);
    lemma_ok(m);
}

/// An address as the session tells it.
pub open spec fn told_text(o: Option<Seq<char>>) -> JsonV {
    if o is Some {
        JsonV::Text(o->0)
    } else {
        JsonV::Null
    }
}

/// The addresses as the session tells them: each with its name and the address proper.
pub open spec fn told_addresses(
    list: Option<Seq<crate::jmap::types::EmailAddressV>>,
) -> JsonV {
    match list {
        Some(l) => JsonV::List(
            Seq::new(
                l.len(),
                |i: int|
                    JsonV::Object(
                        seq![("name"@, told_text(l[i].name)), ("email"@, told_text(l[i].email))],
                    ),
            ),
        ),
        None => JsonV::Null,
    }
}

/// The session tells each thing of a message under its own name: its ids, its senders and
/// recipients, its subject and dates, whether it is read and flagged, and, unless only
/// headers are wanted, its text as far as it is wanted and whether some of it is missing.
pub proof fn law_message_is_told_as_it_is(e: EmailV, max: usize)
    ensures
        ({
            let m = entries(email_json(e, false, max));
            let head = entries(email_json(e, true, max));
            let text = body_text(e);
            let cut = 0 < max < text.len();
            &&& m.contains(("id"@, JsonV::Text(e.id)))
            &&& m.contains(("thread_id"@, told_text(e.thread_id)))
            &&& m.contains(("from"@, told_addresses(e.from)))
            &&& m.contains(("to"@, told_addresses(e.to)))
            &&& m.contains(("cc"@, told_addresses(e.cc)))
            &&& m.contains(("subject"@, told_text(e.subject)))
            &&& m.contains(("received_at"@, told_text(e.received_at)))
            &&& m.contains(("sent_at"@, told_text(e.sent_at)))
            &&& m.contains(("is_read"@, JsonV::Bool(lookup(e.keywords, "$seen"@) is Some)))
            &&& m.contains(("is_flagged"@, JsonV::Bool(lookup(e.keywords, "$flagged"@) is Some)))
            &&& m.contains(
                (
                    "body"@,
                    JsonV::Text(
                        if cut {
                            text.take(max as int)
                        } else {
                            text
                        },
                    ),
                ),
            )
            &&& m.contains(("body_truncated"@, JsonV::Bool(cut)))
            &&& m.contains(("preview"@, told_text(e.preview)))
            &&& head == m.take(head.len() as int)
            &&& head.len() == m.len() - 3
        }),
{
    lemma_addresses(e.from);
    lemma_addresses(e.to);
    lemma_addresses(e.cc);
    let f = crate::cli::email_fields(e);
    let m = entries(email_json(e, false, max));
    let head = entries(email_json(e, true, max));
    assert(f.len() == 14);
    assert(m.len() == 17);
    assert(m[0] == f[0] && m[1] == f[1] && m[2] == f[2] && m[3] == f[3] && m[4] == f[4]);
    assert(m[5] == f[5] && m[6] == f[6] && m[7] == f[7] && m[8] == f[8] && m[9] == f[9]);
    assert(m.contains(m[0]) && m.contains(m[1]) && m.contains(m[2]) && m.contains(m[3]));
    assert(m.contains(m[4]) && m.contains(m[5]) && m.contains(m[6]) && m.contains(m[7]));
    assert(m.contains(m[8]) && m.contains(m[9]) && m.contains(m[14]) && m.contains(m[15]));
    assert(m.contains(m[16]));
    assert(m[0] == ("id"@, JsonV::Text(e.id)));
    assert(m[1] == ("thread_id"@, told_text(e.thread_id)));
    assert(m[5] == ("subject"@, told_text(e.subject)));
    assert(m[6] == ("received_at"@, told_text(e.received_at)));
    assert(m[7] == ("sent_at"@, told_text(e.sent_at)));
    assert(m[16] == ("preview"@, told_text(e.preview)));
    assert(head =~= m.take(head.len() as int));
}

proof fn lemma_addresses(list: Option<Seq<crate::jmap::types::EmailAddressV>>)
    ensures
        crate::cli::addresses_json(list) == told_addresses(list),
{
    if let Some(l) = list {
        let a = l.map_values(|x: crate::jmap::types::EmailAddressV| crate::cli::address_json(x));
        let b = Seq::new(
            l.len(),
            |i: int|
                JsonV::Object(
                    seq![("name"@, told_text(l[i].name)), ("email"@, told_text(l[i].email))],
                ),
        );
        assert forall|i: int| 0 <= i < l.len() implies #[trigger] a[i] == b[i] by {
            let n = Seq::<(Seq<char>, JsonV)>::empty().push(("name"@, told_text(l[i].name))).push(
                ("email"@, told_text(l[i].email)),
            );
            assert(n =~= seq![("name"@, told_text(l[i].name)), ("email"@, told_text(l[i].email))]);
        }
        assert(a =~= b);
    }
}

// ---------------------------------------------------------------------------
// Several messages
// ---------------------------------------------------------------------------

/// `destroy` destroys the messages that are named, one after the other and in order, and
/// `bulk_archive` and `bulk_delete_email` move them to the mailbox for archived or for
/// deleted ones; the answer comes after the last, with one result for each.
pub proof fn law_first_of_several_is_sent(
    s: CliStateV,
    input: JsonV,
    list: Seq<JsonV>,
    ids: Seq<Seq<char>>,
)
    requires
        s.connected,
        field(input, "ids"@) == Some(JsonV::List(list)),
        list == ids.map_values(|id: Seq<char>| JsonV::Text(id)),
        0 < ids.len() <= usize::MAX,
    ensures
        ({
            let c = text_field(input, "command"@);
            let op_id = next_id(s.next_op_id);
            let step = input_taken(s, Ok(input)).1;
            let archived = configured_folder(s, true);
            let deleted = configured_folder(s, false);
            let goes_to = |to: Option<Seq<char>>|
                {
                    &&& step matches CliStepV::Send {
                        waiting: WaitingV::Batch { items, at, results, .. },
                        ..
                    } && at == 0 && results.len() == 0 && items.len() == ids.len() && (forall|i: int|
                        0 <= i < ids.len() ==> #[trigger] items[i] == (ids[i], to))
                };
            &&& c == Some("destroy"@) ==> goes_to(None) && sent(s, input) == Some(
                BackendCommandV::DestroyEmail { op_id, id: ids[0] },
            )
            &&& c == Some("bulk_archive"@) && archived is Some ==> goes_to(archived) && sent(
                s,
                input,
            ) == Some(
                BackendCommandV::MoveEmail { op_id, id: ids[0], to_mailbox_id: archived->0 },
            )
            &&& c == Some("bulk_delete_email"@) && deleted is Some ==> goes_to(deleted) && sent(
                s,
                input,
            ) == Some(BackendCommandV::MoveEmail { op_id, id: ids[0], to_mailbox_id: deleted->0 })
        }),
{
    lemma_command_names();
    lemma_all_texts(list, ids, ids.len() as int);
    assert(ids.take(ids.len() as int) =~= ids);
    assert(crate::cli::ids_in(input) == Ok::<Seq<Seq<char>>, Seq<char>>(ids));
}

proof fn lemma_all_texts(list: Seq<JsonV>, ids: Seq<Seq<char>>, k: int)
    requires
        list == ids.map_values(|id: Seq<char>| JsonV::Text(id)),
        0 <= k <= ids.len(),
    ensures
        crate::cli::all_texts(list, k) == Some(ids.take(k)),
    decreases k,
{
    if k > 0 {
        lemma_all_texts(list, ids, k - 1);
        assert(list[k - 1] == JsonV::Text(ids[k - 1]));
        assert(ids.take(k) =~= ids.take(k - 1).push(ids[k - 1]));
    } else {
        assert(ids.take(0) =~= Seq::empty());
    }
}

/// Once one of several messages has had its turn, what came of it is noted under its id,
/// and the next one is sent: moved to its mailbox, or destroyed where it has none. After
/// the last one all results are told, in order, and how many went well if that is wanted.
pub proof fn law_several_take_turns(
    s: CliStateV,
    items: Seq<(Seq<char>, Option<Seq<char>>)>,
    counted: bool,
    at: usize,
    results: Seq<JsonV>,
    succeeded: usize,
    op: u64,
    action: EmailMutationAction,
    r: Result<(), Seq<char>>,
)
    requires
        s.connected,
        at < items.len() <= usize::MAX,
        succeeded < usize::MAX,
    ensures
        ({
            let id = items[at as int].0;
            let response = BackendResponseV::EmailMutation { op_id: op, id, action, result: r };
            let waiting = WaitingV::Batch { items, counted, at, results, succeeded };
            let next = responded(s, waiting, response).1;
            let result = match r {
                Ok(_) => JsonV::Object(seq![("id"@, JsonV::Text(id)), ("ok"@, JsonV::Bool(true))]),
                Err(e) => JsonV::Object(
                    seq![
                        ("id"@, JsonV::Text(id)),
                        ("ok"@, JsonV::Bool(false)),
                        ("error"@, JsonV::Text(e)),
                    ],
                ),
            };
            let well = (succeeded + if r is Ok {
                1int
            } else {
                0
            }) as usize;
            let op_id = next_id(s.next_op_id);
            if at + 1 < items.len() {
                let item = items[at + 1];
                next == (CliStepV::Send {
                    command: match item.1 {
                        Some(to) => BackendCommandV::MoveEmail {
                            op_id,
                            id: item.0,
                            to_mailbox_id: to,
                        },
                        None => BackendCommandV::DestroyEmail { op_id, id: item.0 },
                    },
                    waiting: WaitingV::Batch {
                        items,
                        counted,
                        at: (at + 1) as usize,
                        results: results.push(result),
                        succeeded: well,
                    },
                })
            } else {
                let told = ("results"@, JsonV::List(results.push(result)));
                next matches CliStepV::Answer(j) && is_ok_with(
                    j,
                    if counted {
                        seq![told, ("succeeded"@, JsonV::UInt(well as u64))]
                    } else {
                        seq![told]
                    },
                )
            }
        }),
{
    reveal_strlit("results");
    reveal_strlit("succeeded");
    assert("results"@.len() == 7 && "succeeded"@.len() == 9);
    let id = items[at as int].0;
    let none = Seq::<(Seq<char>, JsonV)>::empty();
    assert(none.push(("id"@, JsonV::Text(id))).push(("ok"@, JsonV::Bool(true))) =~= seq![
        ("id"@, JsonV::Text(id)),
        ("ok"@, JsonV::Bool(true)),
    ]);
    if let Err(e) = r {
        assert(none.push(("id"@, JsonV::Text(id))).push(("ok"@, JsonV::Bool(false))).push(
            ("error"@, JsonV::Text(e)),
        ) =~= seq![
            ("id"@, JsonV::Text(id)),
            ("ok"@, JsonV::Bool(false)),
            ("error"@, JsonV::Text(e)),
        ]);
    }
    let response = BackendResponseV::EmailMutation { op_id: op, id, action, result: r };
    let result = crate::cli::outcome_json(id, response);
    let well = (succeeded + if r is Ok {
        1int
    } else {
        0
    }) as usize;
    let told = ("results"@, JsonV::List(results.push(result)));
    let m = none.push(told);
    let n = m.push(("succeeded"@, JsonV::UInt(well as u64)));
    assert(m =~= seq![told]);
    assert(n =~= seq![told, ("succeeded"@, JsonV::UInt(well as u64))]);
    lemma_ok(m);
    lemma_ok(n);
}

// ---------------------------------------------------------------------------
// Proposals
// ---------------------------------------------------------------------------

/// The messages for which the rules suggest an action.
pub open spec fn chosen(
    s: CliStateV,
    emails: Seq<EmailV>,
    action: TriageHintActionDef,
) -> Seq<EmailV> {
    emails.filter(|e: EmailV| suggestion_from(s.rules, e, s.my_email_regex, 0).0 == action)
}

proof fn lemma_suggested(
    s: CliStateV,
    emails: Seq<EmailV>,
    action: TriageHintActionDef,
    k: int,
)
    requires
        0 <= k <= emails.len(),
    ensures
        suggested_upto(s, emails, action, k) == chosen(s, emails.take(k), action),
    decreases k,
{
    reveal(Seq::filter);
    if k > 0 {
        lemma_suggested(s, emails, action, k - 1);
        assert(emails.take(k).drop_last() =~= emails.take(k - 1));
        assert(emails.take(k).last() == emails[k - 1]);
    } else {
        assert(emails.take(0) =~= Seq::empty());
    }
}

/// A proposal archives the messages that the rules suggest to archive and trashes those
/// that they suggest to trash; it takes up no other message.
pub proof fn law_proposal_follows_the_rules(
    s: CliStateV,
    mailbox_id: Seq<char>,
    emails: Seq<EmailV>,
    total: Option<u32>,
    counts: Seq<(Seq<char>, (usize, usize))>,
)
    ensures
        ({
            let response = BackendResponseV::Emails {
                mailbox_id,
                emails: Ok(emails),
                total,
                position: 0,
                loaded: 0,
                thread_counts: counts,
            };
            let after = responded(s, WaitingV::Suggest, response).0;
            let ids = |list: Seq<EmailV>| list.map_values(|e: EmailV| e.id);
            &&& after.plans.len() == s.plans.len() + 1
            &&& after.plans.drop_last() == s.plans
            &&& after.plans.last().archive == ids(
                chosen(s, emails, TriageHintActionDef::Archive),
            )
            &&& after.plans.last().trash == ids(
                chosen(s, emails, TriageHintActionDef::Trash),
            )
        }),
{
    let n = emails.len() as int;
    assert(emails.take(n) =~= emails);
    lemma_suggested(s, emails, TriageHintActionDef::Archive, n);
    lemma_suggested(s, emails, TriageHintActionDef::Trash, n);
    let response = BackendResponseV::Emails {
        mailbox_id,
        emails: Ok(emails),
        total,
        position: 0,
        loaded: 0,
        thread_counts: counts,
    };
    let after = responded(s, WaitingV::Suggest, response).0;
    assert(after.plans.drop_last() =~= s.plans);
}

proof fn lemma_plan_position(plans: Seq<TriagePlanV>, id: Seq<char>, i: int, p: int)
    requires
        0 <= i <= p < plans.len(),
        plans[p].id == id,
        forall|j: int| i <= j < p ==> (#[trigger] plans[j]).id != id,
    ensures
        plan_position(plans, id, i) == p,
    decreases p - i,
{
    if i < p {
        assert(plans[i].id != id);
        lemma_plan_position(plans, id, i + 1, p);
    }
}

/// Applying a proposal moves those of its messages that are to be archived to the mailbox
/// for archived messages and those that are to be trashed to the one for deleted ones, in
/// this order, and no other message.
pub proof fn law_applied_proposal_moves_its_messages(
    s: CliStateV,
    input: JsonV,
    p: int,
)
    requires
        s.connected,
        text_field(input, "command"@) == Some("apply_triage_plan"@),
        0 <= p < s.plans.len(),
        text_field(input, "plan_id"@) == Some(s.plans[p].id),
        forall|j: int| 0 <= j < p ==> (#[trigger] s.plans[j]).id != s.plans[p].id,
        s.plans[p].archive.len() + s.plans[p].trash.len() > 0,
        configured_folder(s, true) is Some,
        configured_folder(s, false) is Some,
    ensures
        ({
            let plan = s.plans[p];
            let n = plan.archive.len() as int;
            input_taken(s, Ok(input)).1 matches CliStepV::Send {
                waiting: WaitingV::Batch { items, at, .. },
                ..
            } && at == 0 && items.len() == n + plan.trash.len() && (forall|i: int|
                0 <= i < n ==> #[trigger] items[i] == (
                    plan.archive[i],
                    configured_folder(s, true),
                )) && (forall|i: int|
                n <= i < items.len() ==> #[trigger] items[i] == (
                    plan.trash[i - n],
                    configured_folder(s, false),
                ))
        }),
{
    lemma_command_names();
    lemma_plan_position(s.plans, s.plans[p].id, 0, p);
}

// ---------------------------------------------------------------------------
// Connections
// ---------------------------------------------------------------------------

proof fn lemma_account_position(
    accounts: Seq<AccountConfigV>,
    name: Seq<char>,
    i: int,
    p: int,
)
    requires
        0 <= i <= p < accounts.len(),
        accounts[p].name == name,
        forall|j: int| i <= j < p ==> (#[trigger] accounts[j]).name != name,
    ensures
        crate::cli::account_position(accounts, name, i) == p,
    decreases p - i,
{
    if i < p {
        assert(accounts[i].name != name);
        lemma_account_position(accounts, name, i + 1, p);
    }
}

/// `connect` connects to the first account of that name, after the connection that there
/// was has been given up; once that has succeeded the session is connected as the
/// account's user, and where it has failed it is not connected.
pub proof fn law_connect_opens_the_named_account(
    s: CliStateV,
    input: JsonV,
    p: int,
    e: Seq<char>,
)
    requires
        text_field(input, "command"@) == Some("connect"@),
        0 <= p < s.accounts.len(),
        text_field(input, "account"@) == Some(s.accounts[p].name),
        forall|j: int| 0 <= j < p ==> (#[trigger] s.accounts[j]).name != s.accounts[p].name,
    ensures
        ({
            let (t, step) = input_taken(s, Ok(input));
            let a = s.accounts[p];
            let up = crate::cli::connect_done(t, a, Ok(())).0;
            let down = crate::cli::connect_done(t, a, Err(e)).0;
            &&& step == (CliStepV::Connect { account: a, shutdown: s.connected })
            &&& !t.connected && t.cached_mailboxes.len() == 0
            &&& up.connected && up.connected_account == Some(a.name) && up.connected_username
                == Some(a.username)
            &&& !down.connected
        }),
{
    lemma_command_names();
    lemma_account_position(s.accounts, s.accounts[p].name, 0, p);
}

// ---------------------------------------------------------------------------
// Answers
// ---------------------------------------------------------------------------

/// A mailbox as the session tells it.
pub open spec fn told_mailbox(m: MailboxV) -> JsonV {
    JsonV::Object(
        seq![
            ("id"@, JsonV::Text(m.id)),
            ("name"@, JsonV::Text(m.name)),
            ("parent_id"@, told_text(m.parent_id)),
            ("role"@, told_text(m.role)),
            ("total_emails"@, JsonV::UInt(m.total_emails as u64)),
            ("unread_emails"@, JsonV::UInt(m.unread_emails as u64)),
            ("sort_order"@, JsonV::UInt(m.sort_order as u64)),
        ],
    )
}

/// The mailboxes that the backend lists are told one by one, each thing under its own
/// name, and are kept for later commands; a failure is told, and keeps those from before.
pub proof fn law_mailboxes_are_told(
    s: CliStateV,
    input: JsonV,
    ms: Seq<MailboxV>,
    e: Seq<char>,
)
    requires
        s.connected,
        text_field(input, "command"@) == Some("list_mailboxes"@),
    ensures
        ({
            let (t, step) = after_answer(s, input, BackendResponseV::Mailboxes(Ok(ms)));
            let list = Seq::new(ms.len(), |i: int| told_mailbox(ms[i]));
            &&& t == CliStateV { cached_mailboxes: ms, ..s }
            &&& step matches CliStepV::Answer(j) && is_ok_with(
                j,
                seq![("mailboxes"@, JsonV::List(list))],
            )
        }),
        ({
            let (t, step) = after_answer(s, input, BackendResponseV::Mailboxes(Err(e)));
            &&& t == s
            &&& step matches CliStepV::Answer(j) && is_error(j, e)
        }),
{
    lemma_command_names();
    reveal_strlit("mailboxes");
    assert("mailboxes"@.len() == 9);
    let list = ms.map_values(|m: MailboxV| crate::cli::mailbox_json(m));
    let want = Seq::new(ms.len(), |i: int| told_mailbox(ms[i]));
    assert forall|i: int| 0 <= i < ms.len() implies #[trigger] list[i] == want[i] by {
        let m = ms[i];
        let a = Seq::<(Seq<char>, JsonV)>::empty().push(("id"@, JsonV::Text(m.id))).push(
            ("name"@, JsonV::Text(m.name)),
        ).push(("parent_id"@, told_text(m.parent_id))).push(("role"@, told_text(m.role))).push(
            ("total_emails"@, JsonV::UInt(m.total_emails as u64)),
        ).push(("unread_emails"@, JsonV::UInt(m.unread_emails as u64))).push(
            ("sort_order"@, JsonV::UInt(m.sort_order as u64)),
        );
        assert(a =~= seq![
            ("id"@, JsonV::Text(m.id)),
            ("name"@, JsonV::Text(m.name)),
            ("parent_id"@, told_text(m.parent_id)),
            ("role"@, told_text(m.role)),
            ("total_emails"@, JsonV::UInt(m.total_emails as u64)),
            ("unread_emails"@, JsonV::UInt(m.unread_emails as u64)),
            ("sort_order"@, JsonV::UInt(m.sort_order as u64)),
        ]);
    }
    assert(list =~= want);
    lemma_one_entry("mailboxes"@, JsonV::List(list));
    lemma_error(e);
}

proof fn lemma_error(e: Seq<char>)
    ensures
        is_error(crate::cli::err_answer(e), e),
{
    let bad = Seq::<(Seq<char>, JsonV)>::empty().push(("ok"@, JsonV::Bool(false))).push(
        ("error"@, JsonV::Text(e)),
    );
    assert(bad =~= seq![("ok"@, JsonV::Bool(false)), ("error"@, JsonV::Text(e))]);
}

/// The messages of a page are told in the order of the page, with the headers alone or
/// with as much of their text as was wanted, and with what the server said of the page; a
/// failure is told.
pub proof fn law_page_is_told(
    s: CliStateV,
    input: JsonV,
    mailbox_id: Seq<char>,
    emails: Seq<EmailV>,
    total: Option<u32>,
    position: u32,
    loaded: u32,
    counts: Seq<(Seq<char>, (usize, usize))>,
    e: Seq<char>,
)
    requires
        s.connected,
        text_field(input, "command"@) == Some("query_emails"@),
        text_field(input, "mailbox_id"@) == Some(mailbox_id),
    ensures
        ({
            let page = |r: Result<Seq<EmailV>, Seq<char>>|
                BackendResponseV::Emails {
                    mailbox_id,
                    emails: r,
                    total,
                    position,
                    loaded,
                    thread_counts: counts,
                };
            let step = after_answer(s, input, page(Ok(emails))).1;
            let failed = after_answer(s, input, page(Err(e))).1;
            let headers = bool_field(input, "headers_only"@) == Some(true);
            let max = match number_field(input, "max_body_chars"@) {
                Some(n) => n as usize,
                None => 0,
            };
            let list = Seq::new(emails.len(), |i: int| email_json(emails[i], headers, max));
            &&& step matches CliStepV::Answer(j) && entries(j).contains(
                ("emails"@, JsonV::List(list)),
            ) && entries(j).contains(("position"@, JsonV::UInt(position as u64))) && entries(
                j,
            ).contains(("loaded"@, JsonV::UInt(loaded as u64))) && entries(j).contains(
                ("ok"@, JsonV::Bool(true)),
            ) && (total is Some ==> entries(j).contains(
                ("total"@, JsonV::UInt(total->0 as u64)),
            ))
            &&& failed matches CliStepV::Answer(j) && is_error(j, e)
        }),
{
    lemma_command_names();
    lemma_error(e);
    reveal_strlit("emails");
    reveal_strlit("total");
    reveal_strlit("position");
    reveal_strlit("loaded");
    reveal_strlit("thread_counts");
    assert("emails"@.len() == 6 && "total"@.len() == 5 && "position"@.len() == 8);
    assert("loaded"@.len() == 6 && "thread_counts"@.len() == 13);
    let headers = bool_field(input, "headers_only"@) == Some(true);
    let max = match number_field(input, "max_body_chars"@) {
        Some(n) => n as usize,
        None => 0,
    };
    let list = emails.map_values(|x: EmailV| email_json(x, headers, max));
    assert(list =~= Seq::new(emails.len(), |i: int| email_json(emails[i], headers, max)));
    let told_total = match total {
        Some(n) => JsonV::UInt(n as u64),
        None => JsonV::Null,
    };
    let m = Seq::<(Seq<char>, JsonV)>::empty().push(("emails"@, JsonV::List(list))).push(
        ("total"@, told_total),
    ).push(("position"@, JsonV::UInt(position as u64))).push(
        ("loaded"@, JsonV::UInt(loaded as u64)),
    ).push(("thread_counts"@, crate::cli::counts_json(counts)));
    lemma_ok(m);
    let all = m.push(("ok"@, JsonV::Bool(true)));
    assert(all[0] == ("emails"@, JsonV::List(list)));
    assert(all[1] == ("total"@, told_total));
    assert(all[2] == ("position"@, JsonV::UInt(position as u64)));
    assert(all[3] == ("loaded"@, JsonV::UInt(loaded as u64)));
    assert(all[5] == ("ok"@, JsonV::Bool(true)));
}

/// A message, a thread, the headers of a message and a saved attachment are told as they
/// came, and what could not be had is told with the reason.
pub proof fn law_what_came_is_told(
    s: CliStateV,
    e: EmailV,
    id: Seq<char>,
    text: Seq<char>,
    path: Seq<char>,
    why: Seq<char>,
    headers: bool,
    max: usize,
)
    ensures
        ({
            let told = |waiting: WaitingV, response: BackendResponseV|
                responded(s, waiting, response).1;
            let email = WaitingV::Email { headers_only: headers, max_body_chars: max };
            &&& told(email, BackendResponseV::EmailBody { id, result: Ok(e) }) matches
                CliStepV::Answer(j) && entries(j).len() == entries(email_json(e, headers, max)).len()
                + 1 && entries(j).drop_last() == entries(email_json(e, headers, max))
            &&& told(email, BackendResponseV::EmailBody { id, result: Err(why) }) matches
                CliStepV::Answer(j) && is_error(j, why)
            &&& told(
                WaitingV::RawHeaders,
                BackendResponseV::EmailRawHeaders { id, result: Ok(text) },
            ) matches CliStepV::Answer(j) && is_ok_with(j, seq![("headers"@, JsonV::Text(text))])
            &&& told(
                WaitingV::RawHeaders,
                BackendResponseV::EmailRawHeaders { id, result: Err(why) },
            ) matches CliStepV::Answer(j) && is_error(j, why)
            &&& told(
                WaitingV::Attachment,
                BackendResponseV::AttachmentDownloaded { name: id, result: Ok(path) },
            ) matches CliStepV::Answer(j) && is_ok_with(
                j,
                seq![("name"@, JsonV::Text(id)), ("path"@, JsonV::Text(path))],
            )
            &&& told(
                WaitingV::Attachment,
                BackendResponseV::AttachmentDownloaded { name: id, result: Err(why) },
            ) matches CliStepV::Answer(j) && is_error(j, why)
        }),
{
    lemma_error(why);
    reveal_strlit("headers");
    reveal_strlit("name");
    reveal_strlit("path");
    assert("headers"@.len() == 7 && "name"@.len() == 4 && "path"@.len() == 4);
    lemma_one_entry("headers"@, JsonV::Text(text));
    let m = Seq::<(Seq<char>, JsonV)>::empty().push(("name"@, JsonV::Text(id))).push(
        ("path"@, JsonV::Text(path)),
    );
    assert(m =~= seq![("name"@, JsonV::Text(id)), ("path"@, JsonV::Text(path))]);
    lemma_ok(m);
    let f = entries(email_json(e, headers, max));
    lemma_email_keys(e, headers, max);
    crate::data::lemma_key_index(f, "ok"@, 0);
    assert(with_entry(f, "ok"@, JsonV::Bool(true)) == f.push(("ok"@, JsonV::Bool(true))));
    assert(f.push(("ok"@, JsonV::Bool(true))).drop_last() =~= f);
}

proof fn lemma_email_keys(e: EmailV, headers: bool, max: usize)
    ensures
        forall|i: int|
            0 <= i < entries(email_json(e, headers, max)).len() ==> (#[trigger] entries(
                email_json(e, headers, max),
            )[i]).0 != "ok"@,
{
    reveal_strlit("ok");
    reveal_strlit("id");
    reveal_strlit("thread_id");
    reveal_strlit("from");
    reveal_strlit("to");
    reveal_strlit("cc");
    reveal_strlit("subject");
    reveal_strlit("received_at");
    reveal_strlit("sent_at");
    reveal_strlit("is_read");
    reveal_strlit("is_flagged");
    reveal_strlit("mailbox_ids");
    reveal_strlit("message_id");
    reveal_strlit("references");
    reveal_strlit("attachments");
    reveal_strlit("body");
    reveal_strlit("body_truncated");
    reveal_strlit("preview");
    assert("ok"@.len() == 2 && "id"@.len() == 2 && "to"@.len() == 2 && "cc"@.len() == 2);
    assert("ok"@[0] == 'o' && "id"@[0] == 'i' && "to"@[0] == 't' && "cc"@[0] == 'c');
    assert("thread_id"@.len() == 9 && "from"@.len() == 4 && "subject"@.len() == 7);
    assert("received_at"@.len() == 11 && "sent_at"@.len() == 7 && "is_read"@.len() == 7);
    assert("is_flagged"@.len() == 10 && "mailbox_ids"@.len() == 11 && "message_id"@.len() == 10);
    assert("references"@.len() == 10 && "attachments"@.len() == 11 && "body"@.len() == 4);
    assert("body_truncated"@.len() == 14 && "preview"@.len() == 7);
}

/// A command without a name, one that does not exist, one without what it needs, and one
/// for the backend while nothing is connected are answered with what is wrong, and change
/// nothing of what was connected.
pub proof fn law_wrong_commands_are_answered(s: CliStateV, input: JsonV)
    ensures
        text_field(input, "command"@) is None ==> answered_at_once(s, input) is Some && is_error(
            answered_at_once(s, input)->0,
            "missing '"@ + "command"@ + "' field"@,
        ),
        ({
            let c = text_field(input, "command"@);
            let one = c == Some("flag"@) || c == Some("unflag"@) || c == Some("mark_read"@) || c
                == Some("get_email"@);
            &&& one && text_field(input, "id"@) is None ==> answered_at_once(s, input) is Some
                && is_error(answered_at_once(s, input)->0, "missing '"@ + "id"@ + "' field"@)
            &&& one && text_field(input, "id"@) is Some && !s.connected ==> answered_at_once(
                s,
                input,
            ) is Some && is_error(answered_at_once(s, input)->0, "not connected"@)
        }),
{
    lemma_command_names();
    lemma_error("missing '"@ + "command"@ + "' field"@);
    lemma_error("missing '"@ + "id"@ + "' field"@);
    lemma_error("not connected"@);
}

/// Where the backend falls silent, the command is answered with the reason; of several
/// messages only the one whose turn it was has failed, and the next one is sent.
pub proof fn law_silence_is_told(
    s: CliStateV,
    waiting: WaitingV,
    e: Seq<char>,
    items: Seq<(Seq<char>, Option<Seq<char>>)>,
    counted: bool,
    at: usize,
    results: Seq<JsonV>,
    succeeded: usize,
)
    ensures
        !(waiting is Batch) ==> ({
            let (t, step) = broken_off(s, waiting, e);
            &&& t == s
            &&& step matches CliStepV::Answer(j) && is_error(j, e)
        }),
        s.connected && at + 1 < items.len() <= usize::MAX ==> ({
            let (t, step) = broken_off(
                s,
                WaitingV::Batch { items, counted, at, results, succeeded },
                e,
            );
            let failed = JsonV::Object(
                seq![
                    ("id"@, JsonV::Text(items[at as int].0)),
                    ("ok"@, JsonV::Bool(false)),
                    ("error"@, JsonV::Text(e)),
                ],
            );
            let item = items[at + 1];
            let op_id = next_id(s.next_op_id);
            step == (CliStepV::Send {
                command: match item.1 {
                    Some(to) => BackendCommandV::MoveEmail {
                        op_id,
                        id: item.0,
                        to_mailbox_id: to,
                    },
                    None => BackendCommandV::DestroyEmail { op_id, id: item.0 },
                },
                waiting: WaitingV::Batch {
                    items,
                    counted,
                    at: (at + 1) as usize,
                    results: results.push(failed),
                    succeeded,
                },
            })
        }),
{
    lemma_error(e);
    let id = items[at as int].0;
    let failed = Seq::<(Seq<char>, JsonV)>::empty().push(("id"@, JsonV::Text(id))).push(
        ("ok"@, JsonV::Bool(false)),
    ).push(("error"@, JsonV::Text(e)));
    assert(failed =~= seq![
        ("id"@, JsonV::Text(id)),
        ("ok"@, JsonV::Bool(false)),
        ("error"@, JsonV::Text(e)),
    ]);
}

/// The accounts are told with their names, users and addresses, never with the command for
/// the password; the status tells what is connected and how many mailboxes are known.
pub proof fn law_accounts_and_status_are_told(s: CliStateV, input: JsonV)
    requires
        s.cached_mailboxes.len() <= usize::MAX,
    ensures
        text_field(input, "command"@) == Some("list_accounts"@) ==> ({
            let list = Seq::new(
                s.accounts.len(),
                |i: int|
                    JsonV::Object(
                        seq![
                            ("name"@, JsonV::Text(s.accounts[i].name)),
                            ("username"@, JsonV::Text(s.accounts[i].username)),
                            ("well_known_url"@, JsonV::Text(s.accounts[i].well_known_url)),
                        ],
                    ),
            );
            answered_at_once(s, input) matches Some(j) && is_ok_with(
                j,
                seq![("accounts"@, JsonV::List(list))],
            )
        }),
        text_field(input, "command"@) == Some("status"@) ==> (answered_at_once(s, input) matches
            Some(j) && is_ok_with(
            j,
            seq![
                ("connected"@, JsonV::Bool(s.connected)),
                ("account"@, told_text(s.connected_account)),
                ("username"@, told_text(s.connected_username)),
                ("cached_mailboxes"@, JsonV::UInt(s.cached_mailboxes.len() as u64)),
            ],
        )),
{
    lemma_command_names();
    reveal_strlit("accounts");
    assert("accounts"@.len() == 8);
    let told = s.accounts.map_values(|a: AccountConfigV| crate::cli::account_json(a));
    let list = Seq::new(
        s.accounts.len(),
        |i: int|
            JsonV::Object(
                seq![
                    ("name"@, JsonV::Text(s.accounts[i].name)),
                    ("username"@, JsonV::Text(s.accounts[i].username)),
                    ("well_known_url"@, JsonV::Text(s.accounts[i].well_known_url)),
                ],
            ),
    );
    assert forall|i: int| 0 <= i < s.accounts.len() implies #[trigger] told[i] == list[i] by {
        let a = s.accounts[i];
        assert(Seq::<(Seq<char>, JsonV)>::empty().push(("name"@, JsonV::Text(a.name))).push(
            ("username"@, JsonV::Text(a.username)),
        ).push(("well_known_url"@, JsonV::Text(a.well_known_url))) =~= seq![
            ("name"@, JsonV::Text(a.name)),
            ("username"@, JsonV::Text(a.username)),
            ("well_known_url"@, JsonV::Text(a.well_known_url)),
        ]);
    }
    assert(told =~= list);
    lemma_one_entry("accounts"@, JsonV::List(told));
    reveal_strlit("connected");
    reveal_strlit("account");
    reveal_strlit("username");
    reveal_strlit("cached_mailboxes");
    assert("connected"@.len() == 9 && "account"@.len() == 7 && "username"@.len() == 8);
    assert("cached_mailboxes"@.len() == 16);
    let m = Seq::<(Seq<char>, JsonV)>::empty().push(("connected"@, JsonV::Bool(s.connected))).push(
        ("account"@, told_text(s.connected_account)),
    ).push(("username"@, told_text(s.connected_username))).push(
        ("cached_mailboxes"@, JsonV::UInt(s.cached_mailboxes.len() as u64)),
    );
    assert(m =~= seq![
        ("connected"@, JsonV::Bool(s.connected)),
        ("account"@, told_text(s.connected_account)),
        ("username"@, told_text(s.connected_username)),
        ("cached_mailboxes"@, JsonV::UInt(s.cached_mailboxes.len() as u64)),
    ]);
    lemma_ok(m);
}

} // verus!
