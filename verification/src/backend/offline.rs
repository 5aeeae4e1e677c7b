//! Commands without a server: the cache answers, and changes are queued.

use vstd::prelude::*;

use crate::backend::queue::{
    apply_local_mutation, law_projection_keeps_queue, projected, snapshot, snapshot_policies,
};
use crate::backend::{
    BackendCommand, BackendCommandV, BackendResponse, BackendResponseV, EmailMutationAction,
    QueuedMutation, QueuedMutationV, RetentionExecutionResult, RetentionExecutionResultV,
    RulesRunResult, RulesRunResultV,
};
use crate::cache::{
    is_flagged, is_seen, law_destroy_forgets, mailbox_emails, queue_ok, queued, thread_emails,
    with_keyword, Cache, CacheV,
};
use crate::config::RetentionPolicyConfigV;
use crate::data::{
    at, lemma_lookup_with_entry, lemma_lookup_without_key, lookup, no_items, result_view, Dup,
    StrMap,
};
use crate::jmap::types::{Email, EmailV, Mailbox, MailboxV};
use crate::text::copy_list;

verus! {

broadcast use vstd::seq_lib::group_seq_properties;

/// The change that a command asks for.
pub open spec fn operation_of(cmd: BackendCommandV) -> Option<QueuedMutationV> {
    match cmd {
        BackendCommandV::MarkEmailRead { op_id, id } => Some(
            QueuedMutationV::MarkRead { op_id, id },
        ),
        BackendCommandV::MarkEmailUnread { op_id, id } => Some(
            QueuedMutationV::MarkUnread { op_id, id },
        ),
        BackendCommandV::SetEmailFlagged { op_id, id, flagged } => Some(
            QueuedMutationV::SetFlagged { op_id, id, flagged },
        ),
        BackendCommandV::MoveEmail { op_id, id, to_mailbox_id } => Some(
            QueuedMutationV::MoveEmail { op_id, id, to_mailbox_id },
        ),
        BackendCommandV::MoveThread { op_id, thread_id, to_mailbox_id } => Some(
            QueuedMutationV::MoveThread { op_id, thread_id, to_mailbox_id },
        ),
        BackendCommandV::DestroyEmail { op_id, id } => Some(
            QueuedMutationV::DestroyEmail { op_id, id },
        ),
        BackendCommandV::DestroyThread { op_id, thread_id } => Some(
            QueuedMutationV::DestroyThread { op_id, thread_id },
        ),
        BackendCommandV::MarkThreadRead { thread_id, email_ids } => Some(
            QueuedMutationV::MarkThreadRead { thread_id, email_ids },
        ),
        BackendCommandV::MarkMailboxRead { mailbox_id, mailbox_name } => Some(
            QueuedMutationV::MarkMailboxRead { mailbox_id, mailbox_name },
        ),
        BackendCommandV::RunRulesForMailbox { mailbox_id, .. } => Some(
            QueuedMutationV::RunRulesForMailbox { mailbox_id },
        ),
        BackendCommandV::ExecuteRetentionExpiry { policies } => Some(
            QueuedMutationV::ExecuteRetentionExpiry {
                policies: policies.map_values(|p: RetentionPolicyConfigV| snapshot(p)),
            },
        ),
        _ => None,
    }
}

/// The change that a command asks for.
pub fn queued_operation(cmd: &BackendCommand) -> (r: Option<QueuedMutation>)
    ensures
        r.deep_view() == operation_of(cmd.deep_view()),
{
    match cmd {
        BackendCommand::MarkEmailRead { op_id, id } => Some(
            QueuedMutation::MarkRead { op_id: *op_id, id: id.clone() },
        ),
        BackendCommand::MarkEmailUnread { op_id, id } => Some(
            QueuedMutation::MarkUnread { op_id: *op_id, id: id.clone() },
        ),
        BackendCommand::SetEmailFlagged { op_id, id, flagged } => Some(
            QueuedMutation::SetFlagged { op_id: *op_id, id: id.clone(), flagged: *flagged },
        ),
        BackendCommand::MoveEmail { op_id, id, to_mailbox_id } => Some(
            QueuedMutation::MoveEmail {
                op_id: *op_id,
                id: id.clone(),
                to_mailbox_id: to_mailbox_id.clone(),
            },
        ),
        BackendCommand::MoveThread { op_id, thread_id, to_mailbox_id } => Some(
            QueuedMutation::MoveThread {
                op_id: *op_id,
                thread_id: thread_id.clone(),
                to_mailbox_id: to_mailbox_id.clone(),
            },
        ),
        BackendCommand::DestroyEmail { op_id, id } => Some(
            QueuedMutation::DestroyEmail { op_id: *op_id, id: id.clone() },
        ),
        BackendCommand::DestroyThread { op_id, thread_id } => Some(
            QueuedMutation::DestroyThread { op_id: *op_id, thread_id: thread_id.clone() },
        ),
        BackendCommand::MarkThreadRead { thread_id, email_ids } => Some(
            QueuedMutation::MarkThreadRead {
                thread_id: thread_id.clone(),
                email_ids: copy_list(email_ids),
            },
        ),
        BackendCommand::MarkMailboxRead { mailbox_id, mailbox_name } => Some(
            QueuedMutation::MarkMailboxRead {
                mailbox_id: mailbox_id.clone(),
                mailbox_name: mailbox_name.clone(),
            },
        ),
        BackendCommand::RunRulesForMailbox { mailbox_id, .. } => Some(
            QueuedMutation::RunRulesForMailbox { mailbox_id: mailbox_id.clone() },
        ),
        BackendCommand::ExecuteRetentionExpiry { policies } => Some(
            QueuedMutation::ExecuteRetentionExpiry { policies: snapshot_policies(policies) },
        ),
        _ => None,
    }
}

/// The tables of a possibly missing cache are in order.
pub open spec fn cache_ok(cache: Option<CacheV>) -> bool {
    match cache {
        Some(c) => queue_ok(c.op_queue),
        None => true,
    }
}

/// What becomes of the cache, and of a change, when the change is queued under
/// the bytes that stand for it and that have been stored, or why they have not.
pub open spec fn queued_locally(
    cache: Option<CacheV>,
    op: QueuedMutationV,
    payload: Result<Seq<u8>, Seq<char>>,
) -> (Option<CacheV>, Result<(), Seq<char>>) {
    match (cache, payload) {
        (None, _) => (cache, Err("cache unavailable (offline mode)"@)),
        (Some(_), Err(e)) => (cache, Err(e)),
        (Some(c), Ok(bytes)) => (
            Some(projected(CacheV { op_queue: queued(c.op_queue, bytes), ..c }, op)),
            Ok(()),
        ),
    }
}

/// Queues a change under the bytes that stand for it, and shows it in the cache.
pub fn queue_locally(
    cache: &mut Option<Cache>,
    op: &QueuedMutation,
    payload: &Result<Vec<u8>, String>,
) -> (r: Result<(), String>)
    requires
        cache_ok(old(cache).deep_view()),
    ensures
        (final(cache).deep_view(), result_view(r)) == queued_locally(
            old(cache).deep_view(),
            op.deep_view(),
            result_view(*payload),
        ),
        cache_ok(final(cache).deep_view()),
{
    match cache {
        None => Err("cache unavailable (offline mode)".to_owned()),
        Some(c) => match payload {
            Err(e) => Err(e.clone()),
            Ok(bytes) => {
                assert(bytes.deep_view() =~= bytes@);
                let _ = c.enqueue_operation(bytes.as_slice());
                proof {
                    law_projection_keeps_queue(c.deep_view(), op.deep_view());
                }
                apply_local_mutation(c, op);
                Ok(())
            },
        },
    }
}

/// How many of the first `k` messages are unread.
pub open spec fn unread_upto(emails: Seq<EmailV>, k: int) -> nat
    decreases k,
{
    if k <= 0 {
        0
    } else {
        unread_upto(emails, k - 1) + (if is_seen(emails[k - 1]) {
            0nat
        } else {
            1nat
        })
    }
}

/// How many messages of a mailbox the cache knows as unread.
pub open spec fn known_unread(cache: Option<CacheV>, mailbox_id: Seq<char>) -> nat {
    match cache {
        Some(c) => match mailbox_emails(c, mailbox_id) {
            Some(emails) => unread_upto(emails, emails.len() as int),
            None => 0,
        },
        None => 0,
    }
}

fn count_unread(emails: &Vec<Email>) -> (n: usize)
    ensures
        n == unread_upto(emails.deep_view(), emails@.len() as int),
{
    let mut n: usize = 0;
    let mut i: usize = 0;
    while i < emails.len()
        invariant
            n <= i <= emails@.len(),
            n == unread_upto(emails.deep_view(), i as int),
        decreases emails@.len() - i,
    {
        if !at(emails.as_slice(), i).keywords.contains_key("$seen") {
            n = n + 1;
        }
        i = i + 1;
    }
    n
}

/// How many messages of a mailbox the cache knows as unread.
pub fn count_known_unread(cache: &Option<Cache>, mailbox_id: &str) -> (n: usize)
    ensures
        n == known_unread(cache.deep_view(), mailbox_id@),
{
    match cache {
        Some(c) => match c.get_mailbox_emails(mailbox_id) {
            Some(emails) => count_unread(&emails),
            None => 0,
        },
        None => 0,
    }
}

/// The response to a command that asks for a change, once its outcome is known.
/// `updated` is how many messages a mailbox marked as read had unread.
pub open spec fn mutation_response(
    cmd: BackendCommandV,
    result: Result<(), Seq<char>>,
    updated: usize,
) -> Option<BackendResponseV> {
    match cmd {
        BackendCommandV::MarkEmailRead { op_id, id } => Some(
            BackendResponseV::EmailMutation {
                op_id,
                id,
                action: EmailMutationAction::MarkRead,
                result,
            },
        ),
        BackendCommandV::MarkEmailUnread { op_id, id } => Some(
            BackendResponseV::EmailMutation {
                op_id,
                id,
                action: EmailMutationAction::MarkUnread,
                result,
            },
        ),
        BackendCommandV::SetEmailFlagged { op_id, id, flagged } => Some(
            BackendResponseV::EmailMutation {
                op_id,
                id,
                action: EmailMutationAction::SetFlagged(flagged),
                result,
            },
        ),
        BackendCommandV::MoveEmail { op_id, id, .. } => Some(
            BackendResponseV::EmailMutation {
                op_id,
                id,
                action: EmailMutationAction::Move,
                result,
            },
        ),
        BackendCommandV::MoveThread { op_id, thread_id, .. } => Some(
            BackendResponseV::EmailMutation {
                op_id,
                id: thread_id,
                action: EmailMutationAction::Move,
                result,
            },
        ),
        BackendCommandV::DestroyEmail { op_id, id } => Some(
            BackendResponseV::EmailMutation {
                op_id,
                id,
                action: EmailMutationAction::Destroy,
                result,
            },
        ),
        BackendCommandV::DestroyThread { op_id, thread_id } => Some(
            BackendResponseV::EmailMutation {
                op_id,
                id: thread_id,
                action: EmailMutationAction::Destroy,
                result,
            },
        ),
        BackendCommandV::MarkThreadRead { thread_id, .. } => Some(
            BackendResponseV::ThreadMarkedRead { thread_id, result },
        ),
        BackendCommandV::MarkMailboxRead { mailbox_id, mailbox_name } => Some(
            BackendResponseV::MailboxMarkedRead { mailbox_id, mailbox_name, updated, result },
        ),
        BackendCommandV::RunRulesForMailbox { mailbox_id, mailbox_name, .. } => Some(
            BackendResponseV::RulesRun {
                mailbox_id,
                mailbox_name,
                result: match result {
                    Ok(_) => Ok(RulesRunResultV { scanned: 0, matched_rules: 0, actions: 0 }),
                    Err(e) => Err(e),
                },
            },
        ),
        BackendCommandV::ExecuteRetentionExpiry { .. } => Some(
            BackendResponseV::RetentionExecuted {
                result: match result {
                    Ok(_) => Ok(
                        RetentionExecutionResultV { deleted: 0, failed_batches: Seq::empty() },
                    ),
                    Err(e) => Err(e),
                },
            },
        ),
        _ => None,
    }
}

/// The response to a command that asks for a change, once its outcome is known.
pub fn respond_to_mutation(cmd: &BackendCommand, result: Result<(), String>, updated: usize) -> (r:
    Option<BackendResponse>)
    ensures
        r.deep_view() == mutation_response(cmd.deep_view(), result_view(result), updated),
{
    match cmd {
        BackendCommand::MarkEmailRead { op_id, id } => Some(
            BackendResponse::EmailMutation {
                op_id: *op_id,
                id: id.clone(),
                action: EmailMutationAction::MarkRead,
                result,
            },
        ),
        BackendCommand::MarkEmailUnread { op_id, id } => Some(
            BackendResponse::EmailMutation {
                op_id: *op_id,
                id: id.clone(),
                action: EmailMutationAction::MarkUnread,
                result,
            },
        ),
        BackendCommand::SetEmailFlagged { op_id, id, flagged } => Some(
            BackendResponse::EmailMutation {
                op_id: *op_id,
                id: id.clone(),
                action: EmailMutationAction::SetFlagged(*flagged),
                result,
            },
        ),
        BackendCommand::MoveEmail { op_id, id, .. } => Some(
            BackendResponse::EmailMutation {
                op_id: *op_id,
                id: id.clone(),
                action: EmailMutationAction::Move,
                result,
            },
        ),
        BackendCommand::MoveThread { op_id, thread_id, .. } => Some(
            BackendResponse::EmailMutation {
                op_id: *op_id,
                id: thread_id.clone(),
                action: EmailMutationAction::Move,
                result,
            },
        ),
        BackendCommand::DestroyEmail { op_id, id } => Some(
            BackendResponse::EmailMutation {
                op_id: *op_id,
                id: id.clone(),
                action: EmailMutationAction::Destroy,
                result,
            },
        ),
        BackendCommand::DestroyThread { op_id, thread_id } => Some(
            BackendResponse::EmailMutation {
                op_id: *op_id,
                id: thread_id.clone(),
                action: EmailMutationAction::Destroy,
                result,
            },
        ),
        BackendCommand::MarkThreadRead { thread_id, .. } => Some(
            BackendResponse::ThreadMarkedRead { thread_id: thread_id.clone(), result },
        ),
        BackendCommand::MarkMailboxRead { mailbox_id, mailbox_name } => Some(
            BackendResponse::MailboxMarkedRead {
                mailbox_id: mailbox_id.clone(),
                mailbox_name: mailbox_name.clone(),
                updated,
                result,
            },
        ),
        BackendCommand::RunRulesForMailbox { mailbox_id, mailbox_name, .. } => Some(
            BackendResponse::RulesRun {
                mailbox_id: mailbox_id.clone(),
                mailbox_name: mailbox_name.clone(),
                result: match result {
                    Ok(_) => Ok(RulesRunResult { scanned: 0, matched_rules: 0, actions: 0 }),
                    Err(e) => Err(e),
                },
            },
        ),
        BackendCommand::ExecuteRetentionExpiry { .. } => Some(
            BackendResponse::RetentionExecuted {
                result: match result {
                    Ok(_) => {
                        let failed_batches: Vec<String> = no_items();
                        Ok(RetentionExecutionResult { deleted: 0, failed_batches })
                    },
                    Err(e) => Err(e),
                },
            },
        ),
        _ => None,
    }
}

/// The response to a query that failed or found nothing to look at.
pub open spec fn no_emails(
    mailbox_id: Seq<char>,
    emails: Result<Seq<EmailV>, Seq<char>>,
    total: Option<u32>,
    position: u32,
) -> BackendResponseV {
    BackendResponseV::Emails {
        mailbox_id,
        emails,
        total,
        position,
        loaded: 0,
        thread_counts: Seq::empty(),
    }
}

/// The message with an id, or why there is none.
pub open spec fn cached_email(cache: Option<CacheV>, id: Seq<char>) -> Result<EmailV, Seq<char>> {
    match cache {
        Some(c) => match lookup(c.emails, id) {
            Some(e) => Ok(e),
            None => Err("email not cached (offline mode)"@),
        },
        None => Err("cache unavailable (offline mode)"@),
    }
}

/// The mailboxes, or why there are none.
pub open spec fn cached_mailboxes(cache: Option<CacheV>) -> Result<Seq<MailboxV>, Seq<char>> {
    match cache {
        Some(c) => match c.mailboxes {
            Some(ms) => if ms.len() > 0 {
                Ok(ms)
            } else {
                Err("no cached mailboxes available (offline mode)"@)
            },
            None => Err("no cached mailboxes available (offline mode)"@),
        },
        None => Err("cache unavailable (offline mode)"@),
    }
}

/// The response to a query for the messages of a mailbox. Only the first page is
/// known, and only without search terms or dates.
pub open spec fn cached_page(
    cache: Option<CacheV>,
    mailbox_id: Seq<char>,
    position: u32,
    plain: bool,
) -> BackendResponseV {
    if position != 0 || !plain {
        no_emails(
            mailbox_id,
            Err("search and pagination not available in offline mode"@),
            None,
            position,
        )
    } else {
        match cache {
            Some(c) => match mailbox_emails(c, mailbox_id) {
                Some(emails) => BackendResponseV::Emails {
                    mailbox_id,
                    emails: Ok(emails),
                    total: None,
                    position: 0,
                    loaded: emails.len() as u32,
                    thread_counts: Seq::empty(),
                },
                None => no_emails(mailbox_id, Ok(Seq::empty()), Some(0), 0),
            },
            None => no_emails(mailbox_id, Err("cache unavailable (offline mode)"@), None, 0),
        }
    }
}

/// What a command does without a server: the cache and the mailboxes after it,
/// and the response; none to a command that ends the work. The payload stands
/// for the change that the command asks for, if it asks for one.
pub open spec fn offline_outcome(
    cmd: BackendCommandV,
    cache: Option<CacheV>,
    mailboxes: Seq<MailboxV>,
    payload: Result<Seq<u8>, Seq<char>>,
) -> (Option<CacheV>, Seq<MailboxV>, Option<BackendResponseV>) {
    let away = "not available in offline mode"@;
    match operation_of(cmd) {
        Some(op) => {
            let updated = match cmd {
                BackendCommandV::MarkMailboxRead { mailbox_id, .. } => known_unread(
                    cache,
                    mailbox_id,
                ),
                _ => 0,
            };
            let (after, result) = queued_locally(cache, op, payload);
            (after, mailboxes, mutation_response(cmd, result, updated as usize))
        },
        None => match cmd {
            BackendCommandV::FetchMailboxes { .. } => {
                let result = cached_mailboxes(cache);
                (
                    cache,
                    match result {
                        Ok(ms) => ms,
                        Err(_) => mailboxes,
                    },
                    Some(BackendResponseV::Mailboxes(result)),
                )
            },
            BackendCommandV::QueryEmails {
                mailbox_id,
                position,
                search_query,
                received_after,
                received_before,
                ..
            } => (
                cache,
                mailboxes,
                Some(
                    cached_page(
                        cache,
                        mailbox_id,
                        position,
                        search_query is None && received_after is None && received_before is None,
                    ),
                ),
            ),
            BackendCommandV::GetEmail { id } => (
                cache,
                mailboxes,
                Some(BackendResponseV::EmailBody { id, result: cached_email(cache, id) }),
            ),
            BackendCommandV::GetEmailForReply { id } => (
                cache,
                mailboxes,
                Some(BackendResponseV::EmailForReply { id, result: cached_email(cache, id) }),
            ),
            BackendCommandV::CreateMailbox { name } => (
                cache,
                mailboxes,
                Some(BackendResponseV::MailboxCreated { name, result: Err(away) }),
            ),
            BackendCommandV::DeleteMailbox { name, .. } => (
                cache,
                mailboxes,
                Some(BackendResponseV::MailboxDeleted { name, result: Err(away) }),
            ),
            BackendCommandV::QueryThreadEmails { thread_id } => (
                cache,
                mailboxes,
                Some(
                    BackendResponseV::ThreadEmails {
                        thread_id,
                        emails: match cache {
                            Some(c) => Ok(thread_emails(c, thread_id)),
                            None => Err("cache unavailable (offline mode)"@),
                        },
                    },
                ),
            ),
            BackendCommandV::GetEmailRawHeaders { id } => (
                cache,
                mailboxes,
                Some(BackendResponseV::EmailRawHeaders { id, result: Err(away) }),
            ),
            BackendCommandV::DownloadAttachment { name, .. } => (
                cache,
                mailboxes,
                Some(BackendResponseV::AttachmentDownloaded { name, result: Err(away) }),
            ),
            BackendCommandV::PreviewRetentionExpiry { .. } => (
                cache,
                mailboxes,
                Some(BackendResponseV::RetentionPreview { result: Err(away) }),
            ),
            BackendCommandV::PreviewRulesForMailbox { mailbox_id, mailbox_name, .. } => (
                cache,
                mailboxes,
                Some(
                    BackendResponseV::RulesDryRun { mailbox_id, mailbox_name, result: Err(away) },
                ),
            ),
            _ => (cache, mailboxes, None),
        },
    }
}

fn find_cached_email(cache: &Option<Cache>, id: &str) -> (r: Result<Email, String>)
    ensures
        result_view(r) == cached_email(cache.deep_view(), id@),
{
    match cache {
        Some(c) => match c.get_email(id) {
            Some(e) => Ok(e),
            None => Err("email not cached (offline mode)".to_owned()),
        },
        None => Err("cache unavailable (offline mode)".to_owned()),
    }
}

fn find_cached_mailboxes(cache: &Option<Cache>) -> (r: Result<Vec<Mailbox>, String>)
    ensures
        result_view(r) == cached_mailboxes(cache.deep_view()),
{
    match cache {
        Some(c) => match c.get_mailboxes() {
            Some(ms) => {
                if ms.len() > 0 {
                    Ok(ms)
                } else {
                    Err("no cached mailboxes available (offline mode)".to_owned())
                }
            },
            None => Err("no cached mailboxes available (offline mode)".to_owned()),
        },
        None => Err("cache unavailable (offline mode)".to_owned()),
    }
}

fn respond_no_emails(
    mailbox_id: &str,
    emails: Result<Vec<Email>, String>,
    total: Option<u32>,
    position: u32,
) -> (r: BackendResponse)
    ensures
        r.deep_view() == no_emails(mailbox_id@, result_view(emails), total, position),
{
    BackendResponse::Emails {
        mailbox_id: mailbox_id.to_owned(),
        emails,
        total,
        position,
        loaded: 0,
        thread_counts: StrMap::new(),
    }
}

/// The number of items as a 32-bit number.
pub fn short_count(n: usize) -> (r: u32)
    ensures
        r == n as u32,
{
    #[verifier::truncate]
    (n as u32)
}

fn find_cached_page(cache: &Option<Cache>, mailbox_id: &str, position: u32, plain: bool) -> (r:
    BackendResponse)
    ensures
        r.deep_view() == cached_page(cache.deep_view(), mailbox_id@, position, plain),
{
    if position != 0 || !plain {
        return respond_no_emails(
            mailbox_id,
            Err("search and pagination not available in offline mode".to_owned()),
            None,
            position,
        );
    }
    match cache {
        Some(c) => match c.get_mailbox_emails(mailbox_id) {
            Some(emails) => {
                let loaded: u32 = short_count(emails.len());
                BackendResponse::Emails {
                    mailbox_id: mailbox_id.to_owned(),
                    emails: Ok(emails),
                    total: None,
                    position: 0,
                    loaded,
                    thread_counts: StrMap::new(),
                }
            },
            None => respond_no_emails(mailbox_id, Ok(no_items()), Some(0), 0),
        },
        None => respond_no_emails(
            mailbox_id,
            Err("cache unavailable (offline mode)".to_owned()),
            None,
            0,
        ),
    }
}

/// Carries out a command without a server. There is no response to a command
/// that ends the work. The payload stands for the change that the command asks
/// for, if it asks for one (see `queued_operation`).
pub fn handle_offline_command(
    cmd: &BackendCommand,
    cache: &mut Option<Cache>,
    mailboxes: &mut Vec<Mailbox>,
    payload: &Result<Vec<u8>, String>,
) -> (r: Option<BackendResponse>)
    requires
        cache_ok(old(cache).deep_view()),
    ensures
        (final(cache).deep_view(), final(mailboxes).deep_view(), r.deep_view()) == offline_outcome(
            cmd.deep_view(),
            old(cache).deep_view(),
            old(mailboxes).deep_view(),
            result_view(*payload),
        ),
        cache_ok(final(cache).deep_view()),
        (r is None) == (cmd is Shutdown),
{
    match queued_operation(cmd) {
        Some(op) => {
            let updated: usize = match cmd {
                BackendCommand::MarkMailboxRead { mailbox_id, .. } => count_known_unread(
                    cache,
                    mailbox_id.as_str(),
                ),
                _ => 0,
            };
            let result = queue_locally(cache, &op, payload);
            return respond_to_mutation(cmd, result, updated);
        },
        None => {},
    }
    match cmd {
        BackendCommand::FetchMailboxes { .. } => {
            let result = find_cached_mailboxes(cache);
            match &result {
                Ok(ms) => {
                    *mailboxes = ms.dup();
                },
                Err(_) => {},
            }
            Some(BackendResponse::Mailboxes(result))
        },
        BackendCommand::QueryEmails {
            mailbox_id,
            position,
            search_query,
            received_after,
            received_before,
            ..
        } => {
            let plain = search_query.is_none() && received_after.is_none()
                && received_before.is_none();
            Some(find_cached_page(cache, mailbox_id.as_str(), *position, plain))
        },
        BackendCommand::GetEmail { id } => Some(
            BackendResponse::EmailBody {
                id: id.clone(),
                result: find_cached_email(cache, id.as_str()),
            },
        ),
        BackendCommand::GetEmailForReply { id } => Some(
            BackendResponse::EmailForReply {
                id: id.clone(),
                result: find_cached_email(cache, id.as_str()),
            },
        ),
        BackendCommand::CreateMailbox { name } => Some(
            BackendResponse::MailboxCreated {
                name: name.clone(),
                result: Err("not available in offline mode".to_owned()),
            },
        ),
        BackendCommand::DeleteMailbox { name, .. } => Some(
            BackendResponse::MailboxDeleted {
                name: name.clone(),
                result: Err("not available in offline mode".to_owned()),
            },
        ),
        BackendCommand::QueryThreadEmails { thread_id } => {
            let emails = match cache {
                Some(c) => Ok(c.get_thread_emails(thread_id.as_str())),
                None => Err("cache unavailable (offline mode)".to_owned()),
            };
            Some(BackendResponse::ThreadEmails { thread_id: thread_id.clone(), emails })
        },
        BackendCommand::GetEmailRawHeaders { id } => Some(
            BackendResponse::EmailRawHeaders {
                id: id.clone(),
                result: Err("not available in offline mode".to_owned()),
            },
        ),
        BackendCommand::DownloadAttachment { name, .. } => Some(
            BackendResponse::AttachmentDownloaded {
                name: name.clone(),
                result: Err("not available in offline mode".to_owned()),
            },
        ),
        BackendCommand::PreviewRetentionExpiry { .. } => Some(
            BackendResponse::RetentionPreview {
                result: Err("not available in offline mode".to_owned()),
            },
        ),
        BackendCommand::PreviewRulesForMailbox { mailbox_id, mailbox_name, .. } => Some(
            BackendResponse::RulesDryRun {
                mailbox_id: mailbox_id.clone(),
                mailbox_name: mailbox_name.clone(),
                result: Err("not available in offline mode".to_owned()),
            },
        ),
        _ => None,
    }
}

// ---------------------------------------------------------------------------
// Laws
// ---------------------------------------------------------------------------

/// Without a server, a command that asks for no change leaves the cache as it was.
pub proof fn law_offline_reads_change_nothing(
    cmd: BackendCommandV,
    cache: Option<CacheV>,
    mailboxes: Seq<MailboxV>,
    payload: Result<Seq<u8>, Seq<char>>,
)
    requires
        operation_of(cmd) is None,
    ensures
        offline_outcome(cmd, cache, mailboxes, payload).0 == cache,
{
}

/// Without a server, every change is queued behind those that wait already, and is
/// answered.
pub proof fn law_offline_change_is_queued(
    cmd: BackendCommandV,
    c: CacheV,
    mailboxes: Seq<MailboxV>,
    payload: Seq<u8>,
)
    requires
        operation_of(cmd) is Some,
    ensures
        ({
            let (after, _, response) = offline_outcome(cmd, Some(c), mailboxes, Ok(payload));
            &&& after is Some
            &&& after->0.op_queue == queued(c.op_queue, payload)
            &&& response is Some
        }),
{
    let d = CacheV { op_queue: queued(c.op_queue, payload), ..c };
    law_projection_keeps_queue(d, operation_of(cmd)->0);
}

/// Without a server, a message shows the change that was made to it: it is read or
/// unread, flagged or not, or gone.
pub proof fn law_offline_reads_show_changes(
    c: CacheV,
    mailboxes: Seq<MailboxV>,
    payload: Seq<u8>,
    op_id: u64,
    id: Seq<char>,
    flagged: bool,
)
    requires
        lookup(c.emails, id) is Some,
    ensures
        ({
            let after = |cmd: BackendCommandV|
                offline_outcome(cmd, Some(c), mailboxes, Ok(payload)).0;
            let read = cached_email(after(BackendCommandV::MarkEmailRead { op_id, id }), id);
            let unread = cached_email(after(BackendCommandV::MarkEmailUnread { op_id, id }), id);
            let set = cached_email(
                after(BackendCommandV::SetEmailFlagged { op_id, id, flagged }),
                id,
            );
            let gone = cached_email(after(BackendCommandV::DestroyEmail { op_id, id }), id);
            &&& read is Ok && is_seen(read->Ok_0)
            &&& unread is Ok && !is_seen(unread->Ok_0)
            &&& set is Ok && is_flagged(set->Ok_0) == flagged
            &&& gone is Err
        }),
{
    let e = lookup(c.emails, id)->0;
    lemma_lookup_with_entry(e.keywords, "$seen"@, true, "$seen"@);
    lemma_lookup_without_key(e.keywords, "$seen"@, "$seen"@);
    lemma_lookup_with_entry(e.keywords, "$flagged"@, true, "$flagged"@);
    lemma_lookup_without_key(e.keywords, "$flagged"@, "$flagged"@);
    lemma_lookup_with_entry(c.emails, id, with_keyword(e, "$seen"@, true), id);
    lemma_lookup_with_entry(c.emails, id, with_keyword(e, "$seen"@, false), id);
    lemma_lookup_with_entry(c.emails, id, with_keyword(e, "$flagged"@, flagged), id);
    law_destroy_forgets(CacheV { op_queue: queued(c.op_queue, payload), ..c }, id);
}

} // verus!
