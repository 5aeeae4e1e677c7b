//! The work with a server, in steps. Each step takes what has come back from
//! outside and says what is to be done next; a caller carries the requests out.
//!
//! Work is a stack of tasks. A task asks for something from outside, starts
//! another task and waits for what that returns, or returns something itself.

use regex::Regex;
use vstd::prelude::*;

use crate::backend::dates::{email_received_days, received_days};
use crate::backend::offline::{
    cache_ok, handle_offline_command, known_unread, mutation_response, offline_outcome,
    operation_of, queued_operation, respond_to_mutation, short_count,
};
use crate::backend::queue::{
    apply_local_mutation, done_with, id_after, is_done_with, law_projection_keeps_queue, projected,
    queued_mutations_for_retention, queued_mutations_for_rule_actions, restore_policies,
    retention_mutations_upto, rule_mutations_upto, unsnapshot,
};
use crate::backend::{
    BackendCommand, BackendCommandV, BackendResponse, BackendResponseV, QueuedMutation,
    QueuedMutationV, RetentionCandidate, RetentionCandidateV, RetentionExecutionResult,
    RetentionExecutionResultV, RetentionPolicySnapshotV, RetentionPreviewResult,
    RetentionPreviewResultV, RulesDryRunEntry, RulesDryRunEntryV, RulesDryRunResult,
    RulesDryRunResultV, RulesRunResult, RulesRunResultV,
};
use crate::cache::{
    copy_bytes, emails_put_upto, is_seen, lemma_unqueued, mailbox_emails, next_seq, processed_upto,
    queue_ok, queued, unqueued_upto, Cache, CacheV,
};
use crate::config::{RetentionPolicyConfig, RetentionPolicyConfigV};
use crate::data::{at, lookup, no_items, put, put_all, result_view, with_entry, Dup, StrMap};
use crate::jmap::types::{
    Email, EmailQueryResult, EmailQueryResultV, EmailV, Mailbox, MailboxV, Thread, ThreadV,
};
use crate::pattern::regex_found;
use crate::rules::{
    applications_upto, apply_rules, format_action_name, resolve_mailbox_id, resolved_mailbox,
    shown_action, with_text, ActionV, CompiledRule, CompiledRuleV, RuleApplication,
    RuleApplicationV,
};
use crate::sorting::{is_text_le, sort_by, sorted, text_le};
use crate::spam::{head_and_body, split_headers_body};
use crate::text::{begins, copy_list, list_contains, same, slice_text, starts_with, to_chars};

verus! {

broadcast use vstd::seq_lib::group_seq_properties;

/// What is asked for from outside: of the server, of the clock, of the notation in
/// which changes are stored, or of the store.
#[derive(Debug)]
pub enum Request {
    GetMailboxes,
    CreateMailbox { name: String },
    DeleteMailbox { id: String },
    QueryEmails {
        mailbox_id: String,
        page_size: u32,
        position: u32,
        search_query: Option<String>,
        received_after: Option<String>,
        received_before: Option<String>,
    },
    QueryUncollapsed { mailbox_id: String, limit: u32, position: u32 },
    GetEmails { ids: Vec<String>, extra: Vec<String> },
    GetEmailsForRules { ids: Vec<String>, extra: Vec<String> },
    GetThreads { ids: Vec<String> },
    GetKeywords { ids: Vec<String> },
    QueryThreadEmails { thread_id: String },
    GetEmail { id: String },
    GetEmailForReply { id: String },
    GetEmailRaw { id: String },
    MarkRead { id: String },
    MarkUnread { id: String },
    MarkAllRead { ids: Vec<String> },
    SetFlagged { id: String, flagged: bool },
    MoveEmail { id: String, to: String },
    DestroyEmails { ids: Vec<String> },
    Download { blob_id: String, name: String, content_type: String },
    Today,
    Encode { op: QueuedMutation },
    Store { seq: u64, payload: Vec<u8> },
    Decode { payload: Vec<u8> },
}

/// The contents of a `Request`.
pub enum RequestV {
    GetMailboxes,
    CreateMailbox { name: Seq<char> },
    DeleteMailbox { id: Seq<char> },
    QueryEmails {
        mailbox_id: Seq<char>,
        page_size: u32,
        position: u32,
        search_query: Option<Seq<char>>,
        received_after: Option<Seq<char>>,
        received_before: Option<Seq<char>>,
    },
    QueryUncollapsed { mailbox_id: Seq<char>, limit: u32, position: u32 },
    GetEmails { ids: Seq<Seq<char>>, extra: Seq<Seq<char>> },
    GetEmailsForRules { ids: Seq<Seq<char>>, extra: Seq<Seq<char>> },
    GetThreads { ids: Seq<Seq<char>> },
    GetKeywords { ids: Seq<Seq<char>> },
    QueryThreadEmails { thread_id: Seq<char> },
    GetEmail { id: Seq<char> },
    GetEmailForReply { id: Seq<char> },
    GetEmailRaw { id: Seq<char> },
    MarkRead { id: Seq<char> },
    MarkUnread { id: Seq<char> },
    MarkAllRead { ids: Seq<Seq<char>> },
    SetFlagged { id: Seq<char>, flagged: bool },
    MoveEmail { id: Seq<char>, to: Seq<char> },
    DestroyEmails { ids: Seq<Seq<char>> },
    Download { blob_id: Seq<char>, name: Seq<char>, content_type: Seq<char> },
    Today,
    Encode { op: QueuedMutationV },
    Store { seq: u64, payload: Seq<u8> },
    Decode { payload: Seq<u8> },
}

impl DeepView for Request {
    type V = RequestV;

    open spec fn deep_view(&self) -> RequestV {
        match self {
            Request::GetMailboxes => RequestV::GetMailboxes,
            Request::CreateMailbox { name } => RequestV::CreateMailbox {
                name: name@,
            },
            Request::DeleteMailbox { id } => RequestV::DeleteMailbox {
                id: id@,
            },
            Request::QueryEmails {
                mailbox_id,
                page_size,
                position,
                search_query,
                received_after,
                received_before,
            } => RequestV::QueryEmails {
                mailbox_id: mailbox_id@,
                page_size: *page_size,
                position: *position,
                search_query: search_query.deep_view(),
                received_after: received_after.deep_view(),
                received_before: received_before.deep_view(),
            },
            Request::QueryUncollapsed {
                mailbox_id,
                limit,
                position,
            } => RequestV::QueryUncollapsed {
                mailbox_id: mailbox_id@,
                limit: *limit,
                position: *position,
            },
            Request::GetEmails { ids, extra } => RequestV::GetEmails {
                ids: ids.deep_view(),
                extra: extra.deep_view(),
            },
            Request::GetEmailsForRules { ids, extra } => RequestV::GetEmailsForRules {
                ids: ids.deep_view(),
                extra: extra.deep_view(),
            },
            Request::GetThreads { ids } => RequestV::GetThreads {
                ids: ids.deep_view(),
            },
            Request::GetKeywords { ids } => RequestV::GetKeywords {
                ids: ids.deep_view(),
            },
            Request::QueryThreadEmails { thread_id } => RequestV::QueryThreadEmails {
                thread_id: thread_id@,
            },
            Request::GetEmail { id } => RequestV::GetEmail {
                id: id@,
            },
            Request::GetEmailForReply { id } => RequestV::GetEmailForReply {
                id: id@,
            },
            Request::GetEmailRaw { id } => RequestV::GetEmailRaw {
                id: id@,
            },
            Request::MarkRead { id } => RequestV::MarkRead {
                id: id@,
            },
            Request::MarkUnread { id } => RequestV::MarkUnread {
                id: id@,
            },
            Request::MarkAllRead { ids } => RequestV::MarkAllRead {
                ids: ids.deep_view(),
            },
            Request::SetFlagged { id, flagged } => RequestV::SetFlagged {
                id: id@,
                flagged: *flagged,
            },
            Request::MoveEmail { id, to } => RequestV::MoveEmail {
                id: id@,
                to: to@,
            },
            Request::DestroyEmails { ids } => RequestV::DestroyEmails {
                ids: ids.deep_view(),
            },
            Request::Download { blob_id, name, content_type } => RequestV::Download {
                blob_id: blob_id@,
                name: name@,
                content_type: content_type@,
            },
            Request::Today => RequestV::Today,
            Request::Encode { op } => RequestV::Encode {
                op: op.deep_view(),
            },
            Request::Store { seq, payload } => RequestV::Store {
                seq: *seq,
                payload: payload.deep_view(),
            },
            Request::Decode { payload } => RequestV::Decode {
                payload: payload.deep_view(),
            },
        }
    }
}

/// What comes back from outside.
#[derive(Debug)]
pub enum Reply {
    Done(Result<(), String>),
    Mailboxes(Result<Vec<Mailbox>, String>),
    Page(Result<EmailQueryResult, String>),
    Emails(Result<Vec<Email>, String>),
    Threads(Result<Vec<Thread>, String>),
    Email(Result<Option<Email>, String>),
    Raw(Result<Option<String>, String>),
    Saved(Result<String, String>),
    Day(Result<i64, String>),
    Payload(Result<Vec<u8>, String>),
    Decoded(Option<QueuedMutation>),
}

/// The contents of a `Reply`.
pub enum ReplyV {
    Done(Result<(), Seq<char>>),
    Mailboxes(Result<Seq<MailboxV>, Seq<char>>),
    Page(Result<EmailQueryResultV, Seq<char>>),
    Emails(Result<Seq<EmailV>, Seq<char>>),
    Threads(Result<Seq<ThreadV>, Seq<char>>),
    Email(Result<Option<EmailV>, Seq<char>>),
    Raw(Result<Option<Seq<char>>, Seq<char>>),
    Saved(Result<Seq<char>, Seq<char>>),
    Day(Result<i64, Seq<char>>),
    Payload(Result<Seq<u8>, Seq<char>>),
    Decoded(Option<QueuedMutationV>),
}

impl DeepView for Reply {
    type V = ReplyV;

    open spec fn deep_view(&self) -> ReplyV {
        match self {
            Reply::Done(a0) => ReplyV::Done(result_view(*a0)),
            Reply::Mailboxes(a0) => ReplyV::Mailboxes(result_view(*a0)),
            Reply::Page(a0) => ReplyV::Page(result_view(*a0)),
            Reply::Emails(a0) => ReplyV::Emails(result_view(*a0)),
            Reply::Threads(a0) => ReplyV::Threads(result_view(*a0)),
            Reply::Email(a0) => ReplyV::Email(result_view(*a0)),
            Reply::Raw(a0) => ReplyV::Raw(result_view(*a0)),
            Reply::Saved(a0) => ReplyV::Saved(result_view(*a0)),
            Reply::Day(a0) => ReplyV::Day(result_view(*a0)),
            Reply::Payload(a0) => ReplyV::Payload(result_view(*a0)),
            Reply::Decoded(a0) => ReplyV::Decoded(a0.deep_view()),
        }
    }
}

/// What a task returns to the one that waits for it.
#[derive(Debug)]
pub enum Outcome {
    Unit(Result<(), String>),
    Ids(Result<Vec<String>, String>),
    Emails(Result<Vec<Email>, String>),
    RulesRun(Result<RulesRunResult, String>),
    DryRun(Result<RulesDryRunResult, String>),
    Candidates(Result<Vec<RetentionCandidate>, String>),
}

/// The contents of an `Outcome`.
pub enum OutcomeV {
    Unit(Result<(), Seq<char>>),
    Ids(Result<Seq<Seq<char>>, Seq<char>>),
    Emails(Result<Seq<EmailV>, Seq<char>>),
    RulesRun(Result<RulesRunResultV, Seq<char>>),
    DryRun(Result<RulesDryRunResultV, Seq<char>>),
    Candidates(Result<Seq<RetentionCandidateV>, Seq<char>>),
}

impl DeepView for Outcome {
    type V = OutcomeV;

    open spec fn deep_view(&self) -> OutcomeV {
        match self {
            Outcome::Unit(a0) => OutcomeV::Unit(result_view(*a0)),
            Outcome::Ids(a0) => OutcomeV::Ids(result_view(*a0)),
            Outcome::Emails(a0) => OutcomeV::Emails(result_view(*a0)),
            Outcome::RulesRun(a0) => OutcomeV::RulesRun(result_view(*a0)),
            Outcome::DryRun(a0) => OutcomeV::DryRun(result_view(*a0)),
            Outcome::Candidates(a0) => OutcomeV::Candidates(result_view(*a0)),
        }
    }
}

/// What a task is told: to begin or go on, what came back from outside, or what
/// the task returned that it waits for.
#[derive(Debug)]
pub enum Event {
    Go,
    Reply(Reply),
    Returned(Outcome),
}

/// The contents of an `Event`.
pub enum EventV {
    Go,
    Reply(ReplyV),
    Returned(OutcomeV),
}

impl DeepView for Event {
    type V = EventV;

    open spec fn deep_view(&self) -> EventV {
        match self {
            Event::Go => EventV::Go,
            Event::Reply(a0) => EventV::Reply(a0.deep_view()),
            Event::Returned(a0) => EventV::Returned(a0.deep_view()),
        }
    }
}

/// What stays the same while the work goes on.
#[derive(Debug)]
pub struct BackendEnv {
    pub rules: Vec<CompiledRule>,
    pub custom_headers: Vec<String>,
    pub rules_mailbox_regex: Regex,
    pub my_email_regex: Regex,
}

/// The contents of a `BackendEnv`.
pub struct BackendEnvV {
    pub rules: Seq<CompiledRuleV>,
    pub custom_headers: Seq<Seq<char>>,
    pub rules_mailbox_regex: Regex,
    pub my_email_regex: Regex,
}

impl DeepView for BackendEnv {
    type V = BackendEnvV;

    open spec fn deep_view(&self) -> BackendEnvV {
        BackendEnvV {
            rules: self.rules.deep_view(),
            custom_headers: self.custom_headers.deep_view(),
            rules_mailbox_regex: self.rules_mailbox_regex,
            my_email_regex: self.my_email_regex,
        }
    }
}

/// What the work keeps: the cache, the mailboxes as they were last seen, and
/// the number of the next change that is asked for here.
#[derive(Debug)]
pub struct BackendState {
    pub cache: Option<Cache>,
    pub mailboxes: Vec<Mailbox>,
    pub next_op_id: u64,
    pub offline: bool,
}

/// The contents of a `BackendState`.
pub struct BackendStateV {
    pub cache: Option<CacheV>,
    pub mailboxes: Seq<MailboxV>,
    pub next_op_id: u64,
    pub offline: bool,
}

impl DeepView for BackendState {
    type V = BackendStateV;

    open spec fn deep_view(&self) -> BackendStateV {
        BackendStateV {
            cache: self.cache.deep_view(),
            mailboxes: self.mailboxes.deep_view(),
            next_op_id: self.next_op_id,
            offline: self.offline,
        }
    }
}

/// Collects the ids of all messages of a mailbox, page by page.
#[derive(Debug)]
pub enum IdsTask {
    Start { mailbox_id: String },
    Paging { mailbox_id: String, ids: Vec<String> },
}

/// The contents of an `IdsTask`.
pub enum IdsTaskV {
    Start { mailbox_id: Seq<char> },
    Paging { mailbox_id: Seq<char>, ids: Seq<Seq<char>> },
}

impl DeepView for IdsTask {
    type V = IdsTaskV;

    open spec fn deep_view(&self) -> IdsTaskV {
        match self {
            IdsTask::Start { mailbox_id } => IdsTaskV::Start {
                mailbox_id: mailbox_id@,
            },
            IdsTask::Paging { mailbox_id, ids } => IdsTaskV::Paging {
                mailbox_id: mailbox_id@,
                ids: ids.deep_view(),
            },
        }
    }
}

/// Fetches messages in chunks, the next of which begins at `next`.
#[derive(Debug)]
pub struct EmailsTask {
    pub ids: Vec<String>,
    pub next: usize,
    pub out: Vec<Email>,
    pub extra: Vec<String>,
    pub for_rules: bool,
}

/// The contents of an `EmailsTask`.
pub struct EmailsTaskV {
    pub ids: Seq<Seq<char>>,
    pub next: usize,
    pub out: Seq<EmailV>,
    pub extra: Seq<Seq<char>>,
    pub for_rules: bool,
}

impl DeepView for EmailsTask {
    type V = EmailsTaskV;

    open spec fn deep_view(&self) -> EmailsTaskV {
        EmailsTaskV {
            ids: self.ids.deep_view(),
            next: self.next,
            out: self.out.deep_view(),
            extra: self.extra.deep_view(),
            for_rules: self.for_rules,
        }
    }
}

/// Queues a change, shows it in the cache and carries it out.
#[derive(Debug)]
pub enum MutateTask {
    Start { op: QueuedMutation },
    Encoding { op: QueuedMutation },
    Storing { op: QueuedMutation, payload: Vec<u8> },
    Sent { op: QueuedMutation, seq: Option<u64> },
}

/// The contents of a `MutateTask`.
pub enum MutateTaskV {
    Start { op: QueuedMutationV },
    Encoding { op: QueuedMutationV },
    Storing { op: QueuedMutationV, payload: Seq<u8> },
    Sent { op: QueuedMutationV, seq: Option<u64> },
}

impl DeepView for MutateTask {
    type V = MutateTaskV;

    open spec fn deep_view(&self) -> MutateTaskV {
        match self {
            MutateTask::Start { op } => MutateTaskV::Start {
                op: op.deep_view(),
            },
            MutateTask::Encoding { op } => MutateTaskV::Encoding {
                op: op.deep_view(),
            },
            MutateTask::Storing { op, payload } => MutateTaskV::Storing {
                op: op.deep_view(),
                payload: payload.deep_view(),
            },
            MutateTask::Sent { op, seq } => MutateTaskV::Sent {
                op: op.deep_view(),
                seq: seq.deep_view(),
            },
        }
    }
}

/// Carries out a change on the server.
#[derive(Debug)]
pub enum RemoteTask {
    Start { op: QueuedMutation },
    Sent,
    MoveThread { to: String },
    Moving { ids: Vec<String>, next: usize, to: String },
    DestroyThread,
    Mailbox,
    Rules,
    Retention,
    Running { ops: Vec<QueuedMutation>, next: usize },
}

/// The contents of a `RemoteTask`.
pub enum RemoteTaskV {
    Start { op: QueuedMutationV },
    Sent,
    MoveThread { to: Seq<char> },
    Moving { ids: Seq<Seq<char>>, next: usize, to: Seq<char> },
    DestroyThread,
    Mailbox,
    Rules,
    Retention,
    Running { ops: Seq<QueuedMutationV>, next: usize },
}

impl DeepView for RemoteTask {
    type V = RemoteTaskV;

    open spec fn deep_view(&self) -> RemoteTaskV {
        match self {
            RemoteTask::Start { op } => RemoteTaskV::Start {
                op: op.deep_view(),
            },
            RemoteTask::Sent => RemoteTaskV::Sent,
            RemoteTask::MoveThread { to } => RemoteTaskV::MoveThread {
                to: to@,
            },
            RemoteTask::Moving { ids, next, to } => RemoteTaskV::Moving {
                ids: ids.deep_view(),
                next: *next,
                to: to@,
            },
            RemoteTask::DestroyThread => RemoteTaskV::DestroyThread,
            RemoteTask::Mailbox => RemoteTaskV::Mailbox,
            RemoteTask::Rules => RemoteTaskV::Rules,
            RemoteTask::Retention => RemoteTaskV::Retention,
            RemoteTask::Running { ops, next } => RemoteTaskV::Running {
                ops: ops.deep_view(),
                next: *next,
            },
        }
    }
}

/// Runs the rules on all messages of a mailbox.
#[derive(Debug)]
pub enum RulesTask {
    Start { mailbox_id: String },
    Ids,
    Emails,
    Running {
        ops: Vec<QueuedMutation>,
        next: usize,
        email_ids: Vec<String>,
        result: RulesRunResult,
    },
}

/// The contents of a `RulesTask`.
pub enum RulesTaskV {
    Start { mailbox_id: Seq<char> },
    Ids,
    Emails,
    Running {
        ops: Seq<QueuedMutationV>,
        next: usize,
        email_ids: Seq<Seq<char>>,
        result: RulesRunResultV,
    },
}

impl DeepView for RulesTask {
    type V = RulesTaskV;

    open spec fn deep_view(&self) -> RulesTaskV {
        match self {
            RulesTask::Start { mailbox_id } => RulesTaskV::Start {
                mailbox_id: mailbox_id@,
            },
            RulesTask::Ids => RulesTaskV::Ids,
            RulesTask::Emails => RulesTaskV::Emails,
            RulesTask::Running { ops, next, email_ids, result } => RulesTaskV::Running {
                ops: ops.deep_view(),
                next: *next,
                email_ids: email_ids.deep_view(),
                result: result.deep_view(),
            },
        }
    }
}

/// Finds out what the rules would do to the messages of a mailbox.
#[derive(Debug)]
pub enum PreviewTask {
    Start { mailbox_id: String },
    Ids,
    Emails,
}

/// The contents of a `PreviewTask`.
pub enum PreviewTaskV {
    Start { mailbox_id: Seq<char> },
    Ids,
    Emails,
}

impl DeepView for PreviewTask {
    type V = PreviewTaskV;

    open spec fn deep_view(&self) -> PreviewTaskV {
        match self {
            PreviewTask::Start { mailbox_id } => PreviewTaskV::Start {
                mailbox_id: mailbox_id@,
            },
            PreviewTask::Ids => PreviewTaskV::Ids,
            PreviewTask::Emails => PreviewTaskV::Emails,
        }
    }
}

/// What is known while messages are looked for that retention policies let go.
/// `next` is the policy after the one at hand.
#[derive(Debug)]
pub struct Expiry {
    pub policies: Vec<RetentionPolicyConfig>,
    pub next: usize,
    pub today: i64,
    pub mailbox_id: String,
    pub mailbox_name: String,
    pub policy_name: String,
    pub days: u32,
    pub seen: Vec<String>,
    pub candidates: Vec<RetentionCandidate>,
}

/// The contents of an `Expiry`.
pub struct ExpiryV {
    pub policies: Seq<RetentionPolicyConfigV>,
    pub next: usize,
    pub today: i64,
    pub mailbox_id: Seq<char>,
    pub mailbox_name: Seq<char>,
    pub policy_name: Seq<char>,
    pub days: u32,
    pub seen: Seq<Seq<char>>,
    pub candidates: Seq<RetentionCandidateV>,
}

impl DeepView for Expiry {
    type V = ExpiryV;

    open spec fn deep_view(&self) -> ExpiryV {
        ExpiryV {
            policies: self.policies.deep_view(),
            next: self.next,
            today: self.today,
            mailbox_id: self.mailbox_id@,
            mailbox_name: self.mailbox_name@,
            policy_name: self.policy_name@,
            days: self.days,
            seen: self.seen.deep_view(),
            candidates: self.candidates.deep_view(),
        }
    }
}

/// Looks for the messages that retention policies let go.
#[derive(Debug)]
pub enum ExpireTask {
    Start { policies: Vec<RetentionPolicyConfig> },
    Day { policies: Vec<RetentionPolicyConfig> },
    Page { expiry: Expiry },
    Emails { expiry: Expiry, page: EmailQueryResult },
}

/// The contents of an `ExpireTask`.
pub enum ExpireTaskV {
    Start { policies: Seq<RetentionPolicyConfigV> },
    Day { policies: Seq<RetentionPolicyConfigV> },
    Page { expiry: ExpiryV },
    Emails { expiry: ExpiryV, page: EmailQueryResultV },
}

impl DeepView for ExpireTask {
    type V = ExpireTaskV;

    open spec fn deep_view(&self) -> ExpireTaskV {
        match self {
            ExpireTask::Start { policies } => ExpireTaskV::Start {
                policies: policies.deep_view(),
            },
            ExpireTask::Day { policies } => ExpireTaskV::Day {
                policies: policies.deep_view(),
            },
            ExpireTask::Page { expiry } => ExpireTaskV::Page {
                expiry: expiry.deep_view(),
            },
            ExpireTask::Emails { expiry, page } => ExpireTaskV::Emails {
                expiry: expiry.deep_view(),
                page: page.deep_view(),
            },
        }
    }
}

/// A query for the messages of a mailbox.
#[derive(Debug)]
pub struct Query {
    pub mailbox_id: String,
    pub position: u32,
    pub plain: bool,
}

/// The contents of a `Query`.
pub struct QueryV {
    pub mailbox_id: Seq<char>,
    pub position: u32,
    pub plain: bool,
}

impl DeepView for Query {
    type V = QueryV;

    open spec fn deep_view(&self) -> QueryV {
        QueryV {
            mailbox_id: self.mailbox_id@,
            position: self.position,
            plain: self.plain,
        }
    }
}

/// Answers a command.
#[derive(Debug)]
pub enum CommandTask {
    Start { cmd: BackendCommand },
    Offline { cmd: BackendCommand },
    Storing { cmd: BackendCommand, payload: Vec<u8> },
    Fetch,
    Mailboxes,
    Change { cmd: BackendCommand },
    Changed { cmd: BackendCommand },
    Page { query: Query },
    PageStart { cmd: BackendCommand },
    Emails { query: Query, page: EmailQueryResult },
    QueryRules {
        query: Query,
        page: EmailQueryResult,
        emails: Vec<Email>,
        ops: Vec<QueuedMutation>,
        next: usize,
    },
    Threads { query: Query, page: EmailQueryResult, emails: Vec<Email> },
    Keywords { query: Query, page: EmailQueryResult, emails: Vec<Email>, threads: Vec<Thread> },
    Thread { thread_id: String },
    Email { id: String },
    ForReply { id: String },
    Raw { id: String },
    Mutation { cmd: BackendCommand, updated: usize },
    MailboxIds { cmd: BackendCommand },
    Download { name: String },
    ExpirePreview,
    Expire,
    Expiring { ops: Vec<QueuedMutation>, next: usize, deleted: usize, failed: Vec<String> },
    DryRun { mailbox_id: String, mailbox_name: String },
    Rules { mailbox_id: String, mailbox_name: String },
}

/// The contents of a `CommandTask`.
pub enum CommandTaskV {
    Start { cmd: BackendCommandV },
    Offline { cmd: BackendCommandV },
    Storing { cmd: BackendCommandV, payload: Seq<u8> },
    Fetch,
    Mailboxes,
    Change { cmd: BackendCommandV },
    Changed { cmd: BackendCommandV },
    Page { query: QueryV },
    PageStart { cmd: BackendCommandV },
    Emails { query: QueryV, page: EmailQueryResultV },
    QueryRules {
        query: QueryV,
        page: EmailQueryResultV,
        emails: Seq<EmailV>,
        ops: Seq<QueuedMutationV>,
        next: usize,
    },
    Threads { query: QueryV, page: EmailQueryResultV, emails: Seq<EmailV> },
    Keywords { query: QueryV, page: EmailQueryResultV, emails: Seq<EmailV>, threads: Seq<ThreadV> },
    Thread { thread_id: Seq<char> },
    Email { id: Seq<char> },
    ForReply { id: Seq<char> },
    Raw { id: Seq<char> },
    Mutation { cmd: BackendCommandV, updated: usize },
    MailboxIds { cmd: BackendCommandV },
    Download { name: Seq<char> },
    ExpirePreview,
    Expire,
    Expiring { ops: Seq<QueuedMutationV>, next: usize, deleted: usize, failed: Seq<Seq<char>> },
    DryRun { mailbox_id: Seq<char>, mailbox_name: Seq<char> },
    Rules { mailbox_id: Seq<char>, mailbox_name: Seq<char> },
}

impl DeepView for CommandTask {
    type V = CommandTaskV;

    open spec fn deep_view(&self) -> CommandTaskV {
        match self {
            CommandTask::Start { cmd } => CommandTaskV::Start {
                cmd: cmd.deep_view(),
            },
            CommandTask::Offline { cmd } => CommandTaskV::Offline {
                cmd: cmd.deep_view(),
            },
            CommandTask::Storing { cmd, payload } => CommandTaskV::Storing {
                cmd: cmd.deep_view(),
                payload: payload.deep_view(),
            },
            CommandTask::Fetch => CommandTaskV::Fetch,
            CommandTask::Mailboxes => CommandTaskV::Mailboxes,
            CommandTask::Change { cmd } => CommandTaskV::Change {
                cmd: cmd.deep_view(),
            },
            CommandTask::Changed { cmd } => CommandTaskV::Changed {
                cmd: cmd.deep_view(),
            },
            CommandTask::Page { query } => CommandTaskV::Page {
                query: query.deep_view(),
            },
            CommandTask::PageStart { cmd } => CommandTaskV::PageStart {
                cmd: cmd.deep_view(),
            },
            CommandTask::Emails { query, page } => CommandTaskV::Emails {
                query: query.deep_view(),
                page: page.deep_view(),
            },
            CommandTask::QueryRules { query, page, emails, ops, next } => CommandTaskV::QueryRules {
                query: query.deep_view(),
                page: page.deep_view(),
                emails: emails.deep_view(),
                ops: ops.deep_view(),
                next: *next,
            },
            CommandTask::Threads { query, page, emails } => CommandTaskV::Threads {
                query: query.deep_view(),
                page: page.deep_view(),
                emails: emails.deep_view(),
            },
            CommandTask::Keywords { query, page, emails, threads } => CommandTaskV::Keywords {
                query: query.deep_view(),
                page: page.deep_view(),
                emails: emails.deep_view(),
                threads: threads.deep_view(),
            },
            CommandTask::Thread { thread_id } => CommandTaskV::Thread {
                thread_id: thread_id@,
            },
            CommandTask::Email { id } => CommandTaskV::Email {
                id: id@,
            },
            CommandTask::ForReply { id } => CommandTaskV::ForReply {
                id: id@,
            },
            CommandTask::Raw { id } => CommandTaskV::Raw {
                id: id@,
            },
            CommandTask::Mutation { cmd, updated } => CommandTaskV::Mutation {
                cmd: cmd.deep_view(),
                updated: *updated,
            },
            CommandTask::MailboxIds { cmd } => CommandTaskV::MailboxIds {
                cmd: cmd.deep_view(),
            },
            CommandTask::Download { name } => CommandTaskV::Download {
                name: name@,
            },
            CommandTask::ExpirePreview => CommandTaskV::ExpirePreview,
            CommandTask::Expire => CommandTaskV::Expire,
            CommandTask::Expiring { ops, next, deleted, failed } => CommandTaskV::Expiring {
                ops: ops.deep_view(),
                next: *next,
                deleted: *deleted,
                failed: failed.deep_view(),
            },
            CommandTask::DryRun { mailbox_id, mailbox_name } => CommandTaskV::DryRun {
                mailbox_id: mailbox_id@,
                mailbox_name: mailbox_name@,
            },
            CommandTask::Rules { mailbox_id, mailbox_name } => CommandTaskV::Rules {
                mailbox_id: mailbox_id@,
                mailbox_name: mailbox_name@,
            },
        }
    }
}

/// Carries out the changes that were queued, in order, until one fails.
#[derive(Debug)]
pub enum ReplayTask {
    Next { queue: Vec<(u64, Vec<u8>)>, next: usize },
    Decoding { queue: Vec<(u64, Vec<u8>)>, next: usize },
    Sent { queue: Vec<(u64, Vec<u8>)>, next: usize, op: QueuedMutation },
}

/// The contents of a `ReplayTask`.
pub enum ReplayTaskV {
    Next { queue: Seq<(u64, Seq<u8>)>, next: usize },
    Decoding { queue: Seq<(u64, Seq<u8>)>, next: usize },
    Sent { queue: Seq<(u64, Seq<u8>)>, next: usize, op: QueuedMutationV },
}

impl DeepView for ReplayTask {
    type V = ReplayTaskV;

    open spec fn deep_view(&self) -> ReplayTaskV {
        match self {
            ReplayTask::Next { queue, next } => ReplayTaskV::Next {
                queue: queue.deep_view(),
                next: *next,
            },
            ReplayTask::Decoding { queue, next } => ReplayTaskV::Decoding {
                queue: queue.deep_view(),
                next: *next,
            },
            ReplayTask::Sent { queue, next, op } => ReplayTaskV::Sent {
                queue: queue.deep_view(),
                next: *next,
                op: op.deep_view(),
            },
        }
    }
}

/// A task.
#[derive(Debug)]
pub enum Task {
    Ids(IdsTask),
    Emails(EmailsTask),
    Mutate(MutateTask),
    Remote(RemoteTask),
    Rules(RulesTask),
    Preview(PreviewTask),
    Expire(ExpireTask),
    Command(CommandTask),
    Replay(ReplayTask),
}

/// The contents of a `Task`.
pub enum TaskV {
    Ids(IdsTaskV),
    Emails(EmailsTaskV),
    Mutate(MutateTaskV),
    Remote(RemoteTaskV),
    Rules(RulesTaskV),
    Preview(PreviewTaskV),
    Expire(ExpireTaskV),
    Command(CommandTaskV),
    Replay(ReplayTaskV),
}

impl DeepView for Task {
    type V = TaskV;

    open spec fn deep_view(&self) -> TaskV {
        match self {
            Task::Ids(a0) => TaskV::Ids(a0.deep_view()),
            Task::Emails(a0) => TaskV::Emails(a0.deep_view()),
            Task::Mutate(a0) => TaskV::Mutate(a0.deep_view()),
            Task::Remote(a0) => TaskV::Remote(a0.deep_view()),
            Task::Rules(a0) => TaskV::Rules(a0.deep_view()),
            Task::Preview(a0) => TaskV::Preview(a0.deep_view()),
            Task::Expire(a0) => TaskV::Expire(a0.deep_view()),
            Task::Command(a0) => TaskV::Command(a0.deep_view()),
            Task::Replay(a0) => TaskV::Replay(a0.deep_view()),
        }
    }
}

/// What a task does next: ask for something from outside and go on as `task`
/// when it comes, start another task and go on when that returns, return, or
/// tell the console something and go on at once if there is a task to go on
/// with.
#[derive(Debug)]
pub enum Turn {
    Call { task: Task, request: Request },
    Spawn { task: Task, child: Task },
    Return(Outcome),
    Say { task: Option<Task>, response: BackendResponse },
    Finish,
}

/// The contents of a `Turn`.
pub enum TurnV {
    Call { task: TaskV, request: RequestV },
    Spawn { task: TaskV, child: TaskV },
    Return(OutcomeV),
    Say { task: Option<TaskV>, response: BackendResponseV },
    Finish,
}

impl DeepView for Turn {
    type V = TurnV;

    open spec fn deep_view(&self) -> TurnV {
        match self {
            Turn::Call { task, request } => TurnV::Call {
                task: task.deep_view(),
                request: request.deep_view(),
            },
            Turn::Spawn { task, child } => TurnV::Spawn {
                task: task.deep_view(),
                child: child.deep_view(),
            },
            Turn::Return(a0) => TurnV::Return(a0.deep_view()),
            Turn::Say { task, response } => TurnV::Say {
                task: task.deep_view(),
                response: response.deep_view(),
            },
            Turn::Finish => TurnV::Finish,
        }
    }
}

/// What is to be done after a step: ask outside for something and go on with
/// what comes back, tell the console something and go on, go on at once, or
/// wait for a command.
#[derive(Debug)]
pub enum Output {
    Ask(Request),
    Tell(BackendResponse),
    Continue,
    Idle,
}

/// The contents of an `Output`.
pub enum OutputV {
    Ask(RequestV),
    Tell(BackendResponseV),
    Continue,
    Idle,
}

impl DeepView for Output {
    type V = OutputV;

    open spec fn deep_view(&self) -> OutputV {
        match self {
            Output::Ask(a0) => OutputV::Ask(a0.deep_view()),
            Output::Tell(a0) => OutputV::Tell(a0.deep_view()),
            Output::Continue => OutputV::Continue,
            Output::Idle => OutputV::Idle,
        }
    }
}

/// The work on an account: what it keeps, the tasks at hand, the last of which
/// is at work, and what was returned to it.
#[derive(Debug)]
pub struct Backend {
    pub state: BackendState,
    pub stack: Vec<Task>,
    pub returned: Option<Outcome>,
}

/// The contents of a `Backend`.
pub struct BackendV {
    pub state: BackendStateV,
    pub stack: Seq<TaskV>,
    pub returned: Option<OutcomeV>,
}

impl DeepView for Backend {
    type V = BackendV;

    open spec fn deep_view(&self) -> BackendV {
        BackendV {
            state: self.state.deep_view(),
            stack: self.stack.deep_view(),
            returned: self.returned.deep_view(),
        }
    }
}

/// The cache of a state is in order.
pub open spec fn state_ok(b: BackendStateV) -> bool {
    cache_ok(b.cache)
}

/// What a task does when it is told something that it does not wait for.
pub open spec fn unexpected() -> TurnV {
    TurnV::Return(OutcomeV::Unit(Err("unexpected reply"@)))
}

fn unexpected_reply() -> (r: Turn)
    ensures
        r.deep_view() == unexpected(),
{
    Turn::Return(Outcome::Unit(Err("unexpected reply".to_owned())))
}

// ---------------------------------------------------------------------------
// The ids of a mailbox
// ---------------------------------------------------------------------------

/// How many ids a page holds at most.
pub const MAILBOX_QUERY_CHUNK_SIZE: u32 = 500;

/// A list with those of the first `k` texts that it lacks, each once.
pub open spec fn added_upto(acc: Seq<Seq<char>>, more: Seq<Seq<char>>, k: int) -> Seq<Seq<char>>
    decreases k,
{
    if k <= 0 {
        acc
    } else {
        with_text(added_upto(acc, more, k - 1), more[k - 1])
    }
}

/// Adds those texts to a list that it lacks, each once.
pub fn add_missing(acc: &mut Vec<String>, more: &Vec<String>)
    ensures
        final(acc).deep_view() == added_upto(
            old(acc).deep_view(),
            more.deep_view(),
            more@.len() as int,
        ),
{
    let ghost start = acc.deep_view();
    let mut i: usize = 0;
    while i < more.len()
        invariant
            i <= more@.len(),
            acc.deep_view() == added_upto(start, more.deep_view(), i as int),
        decreases more@.len() - i,
    {
        let x = at(more.as_slice(), i);
        if !list_contains(acc, x.as_str()) {
            put(acc, x.clone());
        }
        i = i + 1;
    }
}

/// Where the page after another begins.
pub open spec fn next_position(q: EmailQueryResultV) -> u32 {
    let loaded = q.ids.len() as u32;
    if q.position + loaded > u32::MAX {
        u32::MAX
    } else {
        (q.position + loaded) as u32
    }
}

/// Whether a page is the last one.
pub open spec fn last_page(q: EmailQueryResultV) -> bool {
    ||| q.ids.len() as u32 == 0
    ||| match q.total {
        Some(t) => next_position(q) >= t,
        None => false,
    }
}

fn position_after(q: &EmailQueryResult) -> (r: u32)
    ensures
        r == next_position(q.deep_view()),
{
    let loaded: u32 = short_count(q.ids.len());
    q.position.saturating_add(loaded)
}

fn is_last_page(q: &EmailQueryResult) -> (r: bool)
    ensures
        r == last_page(q.deep_view()),
{
    if short_count(q.ids.len()) == 0 {
        return true;
    }
    match q.total {
        Some(t) => position_after(q) >= t,
        None => false,
    }
}

/// One step of collecting ids: pages are asked for until one is empty or the
/// last, and every id is kept once.
pub open spec fn ids_next(t: IdsTaskV, ev: EventV) -> TurnV {
    match (t, ev) {
        (IdsTaskV::Start { mailbox_id }, _) => TurnV::Call {
            task: TaskV::Ids(IdsTaskV::Paging { mailbox_id, ids: Seq::empty() }),
            request: RequestV::QueryUncollapsed {
                mailbox_id,
                limit: MAILBOX_QUERY_CHUNK_SIZE,
                position: 0,
            },
        },
        (IdsTaskV::Paging { mailbox_id, ids }, EventV::Reply(ReplyV::Page(Ok(q)))) => if q.ids.len()
            == 0 {
            TurnV::Return(OutcomeV::Ids(Ok(ids)))
        } else {
            let all = added_upto(ids, q.ids, q.ids.len() as int);
            if last_page(q) {
                TurnV::Return(OutcomeV::Ids(Ok(all)))
            } else {
                TurnV::Call {
                    task: TaskV::Ids(IdsTaskV::Paging { mailbox_id, ids: all }),
                    request: RequestV::QueryUncollapsed {
                        mailbox_id,
                        limit: MAILBOX_QUERY_CHUNK_SIZE,
                        position: next_position(q),
                    },
                }
            }
        },
        (IdsTaskV::Paging { .. }, EventV::Reply(ReplyV::Page(Err(e)))) => TurnV::Return(
            OutcomeV::Ids(Err(e)),
        ),
        _ => unexpected(),
    }
}

fn ids_step(t: IdsTask, ev: Event) -> (r: Turn)
    ensures
        r.deep_view() == ids_next(t.deep_view(), ev.deep_view()),
{
    match (t, ev) {
        (IdsTask::Start { mailbox_id }, _) => {
            let ids: Vec<String> = no_items();
            let request = Request::QueryUncollapsed {
                mailbox_id: mailbox_id.clone(),
                limit: MAILBOX_QUERY_CHUNK_SIZE,
                position: 0,
            };
            Turn::Call { task: Task::Ids(IdsTask::Paging { mailbox_id, ids }), request }
        },
        (IdsTask::Paging { mailbox_id, ids }, Event::Reply(Reply::Page(Ok(q)))) => {
            if q.ids.len() == 0 {
                return Turn::Return(Outcome::Ids(Ok(ids)));
            }
            let mut ids = ids;
            add_missing(&mut ids, &q.ids);
            if is_last_page(&q) {
                return Turn::Return(Outcome::Ids(Ok(ids)));
            }
            let request = Request::QueryUncollapsed {
                mailbox_id: mailbox_id.clone(),
                limit: MAILBOX_QUERY_CHUNK_SIZE,
                position: position_after(&q),
            };
            Turn::Call { task: Task::Ids(IdsTask::Paging { mailbox_id, ids }), request }
        },
        (IdsTask::Paging { .. }, Event::Reply(Reply::Page(Err(e)))) => Turn::Return(
            Outcome::Ids(Err(e)),
        ),
        _ => unexpected_reply(),
    }
}

// ---------------------------------------------------------------------------
// Messages in chunks
// ---------------------------------------------------------------------------

/// How many messages are asked for at a time.
pub const EMAIL_GET_CHUNK_SIZE: usize = 50;

/// Where the chunk that begins at a position ends.
pub open spec fn chunk_end(n: int, next: int) -> int {
    if next + EMAIL_GET_CHUNK_SIZE < n {
        next + EMAIL_GET_CHUNK_SIZE
    } else {
        n
    }
}

/// The request for the next chunk of messages; if there is none, what was fetched
/// is returned.
pub open spec fn emails_go(t: EmailsTaskV) -> TurnV {
    if t.next >= t.ids.len() {
        TurnV::Return(OutcomeV::Emails(Ok(t.out)))
    } else {
        let ids = t.ids.subrange(t.next as int, chunk_end(t.ids.len() as int, t.next as int));
        TurnV::Call {
            task: TaskV::Emails(t),
            request: if t.for_rules {
                RequestV::GetEmailsForRules { ids, extra: t.extra }
            } else {
                RequestV::GetEmails { ids, extra: t.extra }
            },
        }
    }
}

/// One step of fetching messages: the chunks come one after the other, and the
/// first failure ends it.
pub open spec fn emails_next(t: EmailsTaskV, ev: EventV) -> TurnV {
    match ev {
        EventV::Go => emails_go(t),
        EventV::Reply(ReplyV::Emails(Ok(batch))) => emails_go(
            EmailsTaskV {
                next: chunk_end(t.ids.len() as int, t.next as int) as usize,
                out: t.out + batch,
                ..t
            },
        ),
        EventV::Reply(ReplyV::Emails(Err(e))) => TurnV::Return(OutcomeV::Emails(Err(e))),
        _ => unexpected(),
    }
}

fn end_of_chunk(n: usize, next: usize) -> (r: usize)
    ensures
        r == chunk_end(n as int, next as int),
{
    if n > EMAIL_GET_CHUNK_SIZE && next < n - EMAIL_GET_CHUNK_SIZE {
        next + EMAIL_GET_CHUNK_SIZE
    } else {
        n
    }
}

/// The texts between two positions.
pub fn copy_range(v: &Vec<String>, from: usize, to: usize) -> (r: Vec<String>)
    requires
        from <= to <= v@.len(),
    ensures
        r.deep_view() == v.deep_view().subrange(from as int, to as int),
{
    let ghost vv = v.deep_view();
    let mut out: Vec<String> = no_items();
    let mut i: usize = from;
    assert(out.deep_view() =~= vv.subrange(from as int, from as int));
    while i < to
        invariant
            from <= i <= to <= v@.len(),
            vv == v.deep_view(),
            out.deep_view() == vv.subrange(from as int, i as int),
        decreases to - i,
    {
        assert(vv.subrange(from as int, i as int).push(vv[i as int]) =~= vv.subrange(
            from as int,
            i + 1,
        ));
        put(&mut out, at(v.as_slice(), i).clone());
        i = i + 1;
    }
    out
}

fn go_on_fetching(t: EmailsTask) -> (r: Turn)
    ensures
        r.deep_view() == emails_go(t.deep_view()),
{
    if t.next >= t.ids.len() {
        return Turn::Return(Outcome::Emails(Ok(t.out)));
    }
    let end = end_of_chunk(t.ids.len(), t.next);
    let ids = copy_range(&t.ids, t.next, end);
    let extra = copy_list(&t.extra);
    let request = if t.for_rules {
        Request::GetEmailsForRules { ids, extra }
    } else {
        Request::GetEmails { ids, extra }
    };
    Turn::Call { task: Task::Emails(t), request }
}

fn emails_step(t: EmailsTask, ev: Event) -> (r: Turn)
    ensures
        r.deep_view() == emails_next(t.deep_view(), ev.deep_view()),
{
    match ev {
        Event::Go => go_on_fetching(t),
        Event::Reply(Reply::Emails(Ok(batch))) => {
            let mut t = t;
            t.next = end_of_chunk(t.ids.len(), t.next);
            put_all(&mut t.out, batch);
            go_on_fetching(t)
        },
        Event::Reply(Reply::Emails(Err(e))) => Turn::Return(Outcome::Emails(Err(e))),
        _ => unexpected_reply(),
    }
}

/// The task that fetches messages.
pub open spec fn fetch_task(ids: Seq<Seq<char>>, extra: Seq<Seq<char>>, for_rules: bool) -> TaskV {
    TaskV::Emails(EmailsTaskV { ids, next: 0, out: Seq::empty(), extra, for_rules })
}

fn fetch_emails(ids: Vec<String>, extra: Vec<String>, for_rules: bool) -> (r: Task)
    ensures
        r.deep_view() == fetch_task(ids.deep_view(), extra.deep_view(), for_rules),
{
    let out: Vec<Email> = no_items();
    Task::Emails(EmailsTask { ids, next: 0, out, extra, for_rules })
}

// ---------------------------------------------------------------------------
// Changes through the queue
// ---------------------------------------------------------------------------

/// One step of a change. With a cache the change is stored and queued before it is
/// sent, shown in the cache at once, and taken out of the queue only when it is done
/// with; it then counts as carried out, whatever the server said. A change that
/// cannot be stored is neither queued nor shown nor sent. Without a cache it is sent
/// as it is.
pub open spec fn mutate_next(b: BackendStateV, t: MutateTaskV, ev: EventV) -> (
    BackendStateV,
    TurnV,
) {
    match (t, ev) {
        (MutateTaskV::Start { op }, _) => (
            b,
            match b.cache {
                None => TurnV::Spawn {
                    task: TaskV::Mutate(MutateTaskV::Sent { op, seq: None }),
                    child: TaskV::Remote(RemoteTaskV::Start { op }),
                },
                Some(_) => TurnV::Call {
                    task: TaskV::Mutate(MutateTaskV::Encoding { op }),
                    request: RequestV::Encode { op },
                },
            },
        ),
        (MutateTaskV::Encoding { op }, EventV::Reply(ReplyV::Payload(r))) => match (b.cache, r) {
            (Some(c), Ok(payload)) => (
                b,
                TurnV::Call {
                    task: TaskV::Mutate(MutateTaskV::Storing { op, payload }),
                    request: RequestV::Store { seq: next_seq(c.op_queue), payload },
                },
            ),
            (Some(_), Err(e)) => (
                b,
                TurnV::Return(OutcomeV::Unit(Err("serialize queue op: "@ + e))),
            ),
            (None, _) => (b, unexpected()),
        },
        (MutateTaskV::Storing { op, payload }, EventV::Reply(ReplyV::Done(r))) => match (
            b.cache,
            r,
        ) {
            (Some(c), Ok(_)) => (
                BackendStateV {
                    cache: Some(
                        projected(CacheV { op_queue: queued(c.op_queue, payload), ..c }, op),
                    ),
                    ..b
                },
                TurnV::Spawn {
                    task: TaskV::Mutate(MutateTaskV::Sent { op, seq: Some(next_seq(c.op_queue)) }),
                    child: TaskV::Remote(RemoteTaskV::Start { op }),
                },
            ),
            (Some(_), Err(e)) => (b, TurnV::Return(OutcomeV::Unit(Err(e)))),
            (None, _) => (b, unexpected()),
        },
        (MutateTaskV::Sent { op, seq }, EventV::Returned(OutcomeV::Unit(r))) => match (
            b.cache,
            seq,
        ) {
            (Some(c), Some(n)) => (
                BackendStateV {
                    cache: Some(
                        if done_with(op, r) {
                            CacheV {
                                op_queue: unqueued_upto(c.op_queue, n, c.op_queue.len() as int),
                                ..c
                            }
                        } else {
                            c
                        },
                    ),
                    ..b
                },
                TurnV::Return(OutcomeV::Unit(Ok(()))),
            ),
            _ => (b, TurnV::Return(OutcomeV::Unit(r))),
        },
        _ => (b, unexpected()),
    }
}

fn mutate_step(b: &mut BackendState, t: MutateTask, ev: Event) -> (r: Turn)
    requires
        state_ok(old(b).deep_view()),
    ensures
        (final(b).deep_view(), r.deep_view()) == mutate_next(
            old(b).deep_view(),
            t.deep_view(),
            ev.deep_view(),
        ),
        state_ok(final(b).deep_view()),
{
    match (t, ev) {
        (MutateTask::Start { op }, _) => {
            let copy = op.dup();
            if b.cache.is_none() {
                Turn::Spawn {
                    task: Task::Mutate(MutateTask::Sent { op, seq: None }),
                    child: Task::Remote(RemoteTask::Start { op: copy }),
                }
            } else {
                Turn::Call {
                    task: Task::Mutate(MutateTask::Encoding { op }),
                    request: Request::Encode { op: copy },
                }
            }
        },
        (MutateTask::Encoding { op }, Event::Reply(Reply::Payload(r))) => match &b.cache {
            Some(c) => match r {
                Ok(payload) => {
                    let seq: u64 = c.next_number();
                    let copy = copy_bytes(&payload);
                    Turn::Call {
                        task: Task::Mutate(MutateTask::Storing { op, payload }),
                        request: Request::Store { seq, payload: copy },
                    }
                },
                Err(e) => {
                    let mut m = "serialize queue op: ".to_owned();
                    m.append(e.as_str());
                    Turn::Return(Outcome::Unit(Err(m)))
                },
            },
            None => unexpected_reply(),
        },
        (MutateTask::Storing { op, payload }, Event::Reply(Reply::Done(r))) => match &mut b.cache {
            Some(c) => match r {
                Ok(_) => {
                    assert(payload.deep_view() =~= payload@);
                    let seq = c.enqueue_operation(payload.as_slice());
                    proof {
                        law_projection_keeps_queue(c.deep_view(), op.deep_view());
                    }
                    apply_local_mutation(c, &op);
                    let copy = op.dup();
                    Turn::Spawn {
                        task: Task::Mutate(MutateTask::Sent { op, seq: Some(seq) }),
                        child: Task::Remote(RemoteTask::Start { op: copy }),
                    }
                },
                Err(e) => Turn::Return(Outcome::Unit(Err(e))),
            },
            None => unexpected_reply(),
        },
        (MutateTask::Sent { op, seq }, Event::Returned(Outcome::Unit(r))) => match seq {
            Some(n) => match &mut b.cache {
                Some(c) => {
                    if is_done_with(&op, &r) {
                        proof {
                            let q = c.deep_view().op_queue;
                            lemma_unqueued(q, n, q.len() as int);
                        }
                        let _ = c.remove_queued_operation(n);
                    }
                    Turn::Return(Outcome::Unit(Ok(())))
                },
                None => Turn::Return(Outcome::Unit(r)),
            },
            None => Turn::Return(Outcome::Unit(r)),
        },
        _ => unexpected_reply(),
    }
}

// ---------------------------------------------------------------------------
// Changes on the server
// ---------------------------------------------------------------------------

/// The ids of messages.
pub open spec fn ids_of(emails: Seq<EmailV>) -> Seq<Seq<char>> {
    emails.map_values(|e: EmailV| e.id)
}

/// The ids of messages.
pub fn collect_email_ids(emails: &Vec<Email>) -> (r: Vec<String>)
    ensures
        r.deep_view() == ids_of(emails.deep_view()),
{
    let ghost ev = emails.deep_view();
    let mut out: Vec<String> = no_items();
    let mut i: usize = 0;
    while i < emails.len()
        invariant
            i <= emails@.len(),
            ev == emails.deep_view(),
            out.deep_view().len() == i,
            forall|j: int| 0 <= j < i ==> #[trigger] out.deep_view()[j] == ev[j].id,
        decreases emails@.len() - i,
    {
        put(&mut out, at(emails.as_slice(), i).id.clone());
        i = i + 1;
    }
    assert(out.deep_view() =~= ids_of(ev));
    out
}

/// The next message of a thread is moved, if one is left.
pub open spec fn moving_go(ids: Seq<Seq<char>>, next: usize, to: Seq<char>) -> TurnV {
    if next >= ids.len() {
        TurnV::Return(OutcomeV::Unit(Ok(())))
    } else {
        TurnV::Call {
            task: TaskV::Remote(RemoteTaskV::Moving { ids, next: (next + 1) as usize, to }),
            request: RequestV::MoveEmail { id: ids[next as int], to },
        }
    }
}

/// The next change is carried out, if one is left.
pub open spec fn running_go(ops: Seq<QueuedMutationV>, next: usize) -> TurnV {
    if next >= ops.len() {
        TurnV::Return(OutcomeV::Unit(Ok(())))
    } else {
        TurnV::Spawn {
            task: TaskV::Remote(RemoteTaskV::Running { ops, next: (next + 1) as usize }),
            child: TaskV::Mutate(MutateTaskV::Start { op: ops[next as int] }),
        }
    }
}

/// How a change is begun on the server.
pub open spec fn remote_start(op: QueuedMutationV) -> TurnV {
    let sent = TaskV::Remote(RemoteTaskV::Sent);
    match op {
        QueuedMutationV::MarkRead { id, .. } => TurnV::Call {
            task: sent,
            request: RequestV::MarkRead { id },
        },
        QueuedMutationV::MarkUnread { id, .. } => TurnV::Call {
            task: sent,
            request: RequestV::MarkUnread { id },
        },
        QueuedMutationV::SetFlagged { id, flagged, .. } => TurnV::Call {
            task: sent,
            request: RequestV::SetFlagged { id, flagged },
        },
        QueuedMutationV::MoveEmail { id, to_mailbox_id, .. } => TurnV::Call {
            task: sent,
            request: RequestV::MoveEmail { id, to: to_mailbox_id },
        },
        QueuedMutationV::MoveThread { thread_id, to_mailbox_id, .. } => TurnV::Call {
            task: TaskV::Remote(RemoteTaskV::MoveThread { to: to_mailbox_id }),
            request: RequestV::QueryThreadEmails { thread_id },
        },
        QueuedMutationV::DestroyEmail { id, .. } => TurnV::Call {
            task: sent,
            request: RequestV::DestroyEmails { ids: seq![id] },
        },
        QueuedMutationV::DestroyThread { thread_id, .. } => TurnV::Call {
            task: TaskV::Remote(RemoteTaskV::DestroyThread),
            request: RequestV::QueryThreadEmails { thread_id },
        },
        QueuedMutationV::MarkThreadRead { email_ids, .. } => if email_ids.len() == 0 {
            TurnV::Return(OutcomeV::Unit(Ok(())))
        } else {
            TurnV::Call { task: sent, request: RequestV::MarkAllRead { ids: email_ids } }
        },
        QueuedMutationV::MarkMailboxRead { mailbox_id, .. } => TurnV::Spawn {
            task: TaskV::Remote(RemoteTaskV::Mailbox),
            child: TaskV::Ids(IdsTaskV::Start { mailbox_id }),
        },
        QueuedMutationV::RunRulesForMailbox { mailbox_id } => TurnV::Spawn {
            task: TaskV::Remote(RemoteTaskV::Rules),
            child: TaskV::Rules(RulesTaskV::Start { mailbox_id }),
        },
        QueuedMutationV::ExecuteRetentionExpiry { policies } => TurnV::Spawn {
            task: TaskV::Remote(RemoteTaskV::Retention),
            child: TaskV::Expire(
                ExpireTaskV::Start {
                    policies: policies.map_values(|p: RetentionPolicySnapshotV| unsnapshot(p)),
                },
            ),
        },
    }
}

/// One step of a change on the server; the first failure ends it.
pub open spec fn remote_next(b: BackendStateV, t: RemoteTaskV, ev: EventV) -> (
    BackendStateV,
    TurnV,
) {
    match (t, ev) {
        (RemoteTaskV::Start { op }, _) => (b, remote_start(op)),
        (RemoteTaskV::Sent, EventV::Reply(ReplyV::Done(r))) => (
            b,
            TurnV::Return(OutcomeV::Unit(r)),
        ),
        (RemoteTaskV::MoveThread { to }, EventV::Reply(ReplyV::Emails(Ok(emails)))) => (
            b,
            moving_go(ids_of(emails), 0, to),
        ),
        (RemoteTaskV::MoveThread { .. }, EventV::Reply(ReplyV::Emails(Err(e)))) => (
            b,
            TurnV::Return(OutcomeV::Unit(Err(e))),
        ),
        (RemoteTaskV::Moving { ids, next, to }, EventV::Reply(ReplyV::Done(Ok(_)))) => (
            b,
            moving_go(ids, next, to),
        ),
        (RemoteTaskV::Moving { .. }, EventV::Reply(ReplyV::Done(Err(e)))) => (
            b,
            TurnV::Return(OutcomeV::Unit(Err(e))),
        ),
        (RemoteTaskV::DestroyThread, EventV::Reply(ReplyV::Emails(Ok(emails)))) => (
            b,
            TurnV::Call {
                task: TaskV::Remote(RemoteTaskV::Sent),
                request: RequestV::DestroyEmails { ids: ids_of(emails) },
            },
        ),
        (RemoteTaskV::DestroyThread, EventV::Reply(ReplyV::Emails(Err(e)))) => (
            b,
            TurnV::Return(OutcomeV::Unit(Err(e))),
        ),
        (RemoteTaskV::Mailbox, EventV::Returned(OutcomeV::Ids(Ok(ids)))) => (
            b,
            if ids.len() == 0 {
                TurnV::Return(OutcomeV::Unit(Ok(())))
            } else {
                TurnV::Call {
                    task: TaskV::Remote(RemoteTaskV::Sent),
                    request: RequestV::MarkAllRead { ids },
                }
            },
        ),
        (RemoteTaskV::Mailbox, EventV::Returned(OutcomeV::Ids(Err(e)))) => (
            b,
            TurnV::Return(OutcomeV::Unit(Err(e))),
        ),
        (RemoteTaskV::Rules, EventV::Returned(OutcomeV::RulesRun(Ok(_)))) => (
            b,
            TurnV::Return(OutcomeV::Unit(Ok(()))),
        ),
        (RemoteTaskV::Rules, EventV::Returned(OutcomeV::RulesRun(Err(e)))) => (
            b,
            TurnV::Return(OutcomeV::Unit(Err(e))),
        ),
        (RemoteTaskV::Retention, EventV::Returned(OutcomeV::Candidates(Ok(cs)))) => (
            BackendStateV { next_op_id: id_after(b.next_op_id, cs.len() as int), ..b },
            running_go(retention_mutations_upto(cs, b.next_op_id, cs.len() as int), 0),
        ),
        (RemoteTaskV::Retention, EventV::Returned(OutcomeV::Candidates(Err(e)))) => (
            b,
            TurnV::Return(OutcomeV::Unit(Err(e))),
        ),
        (RemoteTaskV::Running { ops, next }, EventV::Returned(OutcomeV::Unit(Ok(_)))) => (
            b,
            running_go(ops, next),
        ),
        (RemoteTaskV::Running { .. }, EventV::Returned(OutcomeV::Unit(Err(e)))) => (
            b,
            TurnV::Return(OutcomeV::Unit(Err(e))),
        ),
        _ => (b, unexpected()),
    }
}

fn go_on_moving(ids: Vec<String>, next: usize, to: String) -> (r: Turn)
    ensures
        r.deep_view() == moving_go(ids.deep_view(), next, to@),
{
    if next >= ids.len() {
        return Turn::Return(Outcome::Unit(Ok(())));
    }
    let id = at(ids.as_slice(), next).clone();
    let request = Request::MoveEmail { id, to: to.clone() };
    Turn::Call { task: Task::Remote(RemoteTask::Moving { ids, next: next + 1, to }), request }
}

fn go_on_running(ops: Vec<QueuedMutation>, next: usize) -> (r: Turn)
    ensures
        r.deep_view() == running_go(ops.deep_view(), next),
{
    if next >= ops.len() {
        return Turn::Return(Outcome::Unit(Ok(())));
    }
    let op = at(ops.as_slice(), next).dup();
    Turn::Spawn {
        task: Task::Remote(RemoteTask::Running { ops, next: next + 1 }),
        child: Task::Mutate(MutateTask::Start { op }),
    }
}

fn start_remote(op: QueuedMutation) -> (r: Turn)
    ensures
        r.deep_view() == remote_start(op.deep_view()),
{
    match op {
        QueuedMutation::MarkRead { id, .. } => Turn::Call {
            task: Task::Remote(RemoteTask::Sent),
            request: Request::MarkRead { id },
        },
        QueuedMutation::MarkUnread { id, .. } => Turn::Call {
            task: Task::Remote(RemoteTask::Sent),
            request: Request::MarkUnread { id },
        },
        QueuedMutation::SetFlagged { id, flagged, .. } => Turn::Call {
            task: Task::Remote(RemoteTask::Sent),
            request: Request::SetFlagged { id, flagged },
        },
        QueuedMutation::MoveEmail { id, to_mailbox_id, .. } => Turn::Call {
            task: Task::Remote(RemoteTask::Sent),
            request: Request::MoveEmail { id, to: to_mailbox_id },
        },
        QueuedMutation::MoveThread { thread_id, to_mailbox_id, .. } => Turn::Call {
            task: Task::Remote(RemoteTask::MoveThread { to: to_mailbox_id }),
            request: Request::QueryThreadEmails { thread_id },
        },
        QueuedMutation::DestroyEmail { id, .. } => {
            let mut ids: Vec<String> = no_items();
            put(&mut ids, id);
            assert(ids.deep_view() =~= seq![id@]);
            Turn::Call {
                task: Task::Remote(RemoteTask::Sent),
                request: Request::DestroyEmails { ids },
            }
        },
        QueuedMutation::DestroyThread { thread_id, .. } => Turn::Call {
            task: Task::Remote(RemoteTask::DestroyThread),
            request: Request::QueryThreadEmails { thread_id },
        },
        QueuedMutation::MarkThreadRead { email_ids, .. } => {
            if email_ids.len() == 0 {
                Turn::Return(Outcome::Unit(Ok(())))
            } else {
                Turn::Call {
                    task: Task::Remote(RemoteTask::Sent),
                    request: Request::MarkAllRead { ids: email_ids },
                }
            }
        },
        QueuedMutation::MarkMailboxRead { mailbox_id, .. } => Turn::Spawn {
            task: Task::Remote(RemoteTask::Mailbox),
            child: Task::Ids(IdsTask::Start { mailbox_id }),
        },
        QueuedMutation::RunRulesForMailbox { mailbox_id } => Turn::Spawn {
            task: Task::Remote(RemoteTask::Rules),
            child: Task::Rules(RulesTask::Start { mailbox_id }),
        },
        QueuedMutation::ExecuteRetentionExpiry { policies } => Turn::Spawn {
            task: Task::Remote(RemoteTask::Retention),
            child: Task::Expire(ExpireTask::Start { policies: restore_policies(&policies) }),
        },
    }
}

fn remote_step(b: &mut BackendState, t: RemoteTask, ev: Event) -> (r: Turn)
    ensures
        (final(b).deep_view(), r.deep_view()) == remote_next(
            old(b).deep_view(),
            t.deep_view(),
            ev.deep_view(),
        ),
        final(b).deep_view().cache == old(b).deep_view().cache,
{
    match (t, ev) {
        (RemoteTask::Start { op }, _) => start_remote(op),
        (RemoteTask::Sent, Event::Reply(Reply::Done(r))) => Turn::Return(Outcome::Unit(r)),
        (RemoteTask::MoveThread { to }, Event::Reply(Reply::Emails(Ok(emails)))) => go_on_moving(
            collect_email_ids(&emails),
            0,
            to,
        ),
        (RemoteTask::MoveThread { .. }, Event::Reply(Reply::Emails(Err(e)))) => Turn::Return(
            Outcome::Unit(Err(e)),
        ),
        (RemoteTask::Moving { ids, next, to }, Event::Reply(Reply::Done(Ok(_)))) => go_on_moving(
            ids,
            next,
            to,
        ),
        (RemoteTask::Moving { .. }, Event::Reply(Reply::Done(Err(e)))) => Turn::Return(
            Outcome::Unit(Err(e)),
        ),
        (RemoteTask::DestroyThread, Event::Reply(Reply::Emails(Ok(emails)))) => Turn::Call {
            task: Task::Remote(RemoteTask::Sent),
            request: Request::DestroyEmails { ids: collect_email_ids(&emails) },
        },
        (RemoteTask::DestroyThread, Event::Reply(Reply::Emails(Err(e)))) => Turn::Return(
            Outcome::Unit(Err(e)),
        ),
        (RemoteTask::Mailbox, Event::Returned(Outcome::Ids(Ok(ids)))) => {
            if ids.len() == 0 {
                Turn::Return(Outcome::Unit(Ok(())))
            } else {
                Turn::Call {
                    task: Task::Remote(RemoteTask::Sent),
                    request: Request::MarkAllRead { ids },
                }
            }
        },
        (RemoteTask::Mailbox, Event::Returned(Outcome::Ids(Err(e)))) => Turn::Return(
            Outcome::Unit(Err(e)),
        ),
        (RemoteTask::Rules, Event::Returned(Outcome::RulesRun(Ok(_)))) => Turn::Return(
            Outcome::Unit(Ok(())),
        ),
        (RemoteTask::Rules, Event::Returned(Outcome::RulesRun(Err(e)))) => Turn::Return(
            Outcome::Unit(Err(e)),
        ),
        (RemoteTask::Retention, Event::Returned(Outcome::Candidates(Ok(cs)))) => {
            let ops = queued_mutations_for_retention(cs.as_slice(), &mut b.next_op_id);
            go_on_running(ops, 0)
        },
        (RemoteTask::Retention, Event::Returned(Outcome::Candidates(Err(e)))) => Turn::Return(
            Outcome::Unit(Err(e)),
        ),
        (RemoteTask::Running { ops, next }, Event::Returned(Outcome::Unit(Ok(_)))) => go_on_running(
            ops,
            next,
        ),
        (RemoteTask::Running { .. }, Event::Returned(Outcome::Unit(Err(e)))) => Turn::Return(
            Outcome::Unit(Err(e)),
        ),
        _ => unexpected_reply(),
    }
}

// ---------------------------------------------------------------------------
// Rules on a whole mailbox
// ---------------------------------------------------------------------------

/// A sum that stays at the highest number once it reaches it.
pub open spec fn capped(n: int) -> usize {
    if n > usize::MAX {
        usize::MAX
    } else {
        n as usize
    }
}

/// How many actions the first `k` applications ask for.
pub open spec fn actions_upto(apps: Seq<RuleApplicationV>, k: int) -> usize
    decreases k,
{
    if k <= 0 {
        0
    } else {
        capped(actions_upto(apps, k - 1) + apps[k - 1].actions.len())
    }
}

fn count_actions(apps: &Vec<RuleApplication>) -> (n: usize)
    ensures
        n == actions_upto(apps.deep_view(), apps@.len() as int),
{
    let mut n: usize = 0;
    let mut i: usize = 0;
    while i < apps.len()
        invariant
            i <= apps@.len(),
            n == actions_upto(apps.deep_view(), i as int),
        decreases apps@.len() - i,
    {
        n = n.saturating_add(at(apps.as_slice(), i).actions.len());
        i = i + 1;
    }
    n
}

/// What the rules ask for on some messages.
pub open spec fn asked_for(b: BackendStateV, env: BackendEnvV, emails: Seq<EmailV>) -> Seq<
    RuleApplicationV,
> {
    applications_upto(env.rules, emails, b.mailboxes, env.my_email_regex, emails.len() as int)
}

/// The next change that the rules ask for is carried out; after the last one all
/// messages that were looked at are noted as seen by the rules.
pub open spec fn rules_go(
    b: BackendStateV,
    ops: Seq<QueuedMutationV>,
    next: usize,
    email_ids: Seq<Seq<char>>,
    result: RulesRunResultV,
) -> (BackendStateV, TurnV) {
    if next < ops.len() {
        (
            b,
            TurnV::Spawn {
                task: TaskV::Rules(
                    RulesTaskV::Running { ops, next: (next + 1) as usize, email_ids, result },
                ),
                child: TaskV::Mutate(MutateTaskV::Start { op: ops[next as int] }),
            },
        )
    } else {
        (noted(b, email_ids), TurnV::Return(OutcomeV::RulesRun(Ok(result))))
    }
}

/// The state once the rules have seen some messages.
pub open spec fn noted(b: BackendStateV, ids: Seq<Seq<char>>) -> BackendStateV {
    BackendStateV {
        cache: match b.cache {
            Some(c) => Some(
                CacheV {
                    rules_processed: processed_upto(c.rules_processed, ids, ids.len() as int),
                    ..c
                },
            ),
            None => None,
        },
        ..b
    }
}

/// One step of running the rules on a mailbox.
pub open spec fn rules_next(b: BackendStateV, env: BackendEnvV, t: RulesTaskV, ev: EventV) -> (
    BackendStateV,
    TurnV,
) {
    let nothing = RulesRunResultV { scanned: 0, matched_rules: 0, actions: 0 };
    match (t, ev) {
        (RulesTaskV::Start { mailbox_id }, _) => (
            b,
            if env.rules.len() == 0 {
                TurnV::Return(OutcomeV::RulesRun(Ok(nothing)))
            } else {
                TurnV::Spawn {
                    task: TaskV::Rules(RulesTaskV::Ids),
                    child: TaskV::Ids(IdsTaskV::Start { mailbox_id }),
                }
            },
        ),
        (RulesTaskV::Ids, EventV::Returned(OutcomeV::Ids(Ok(ids)))) => (
            b,
            if ids.len() == 0 {
                TurnV::Return(OutcomeV::RulesRun(Ok(nothing)))
            } else {
                TurnV::Spawn {
                    task: TaskV::Rules(RulesTaskV::Emails),
                    child: fetch_task(ids, env.custom_headers, true),
                }
            },
        ),
        (RulesTaskV::Ids, EventV::Returned(OutcomeV::Ids(Err(e)))) => (
            b,
            TurnV::Return(OutcomeV::RulesRun(Err(e))),
        ),
        (RulesTaskV::Emails, EventV::Returned(OutcomeV::Emails(Ok(emails)))) => {
            let apps = asked_for(b, env, emails);
            let (ops, counter) = rule_mutations_upto(
                apps,
                b.mailboxes,
                b.next_op_id,
                apps.len() as int,
            );
            rules_go(
                BackendStateV { next_op_id: counter, ..b },
                ops,
                0,
                ids_of(emails),
                RulesRunResultV {
                    scanned: emails.len() as usize,
                    matched_rules: apps.len() as usize,
                    actions: actions_upto(apps, apps.len() as int),
                },
            )
        },
        (RulesTaskV::Emails, EventV::Returned(OutcomeV::Emails(Err(e)))) => (
            b,
            TurnV::Return(OutcomeV::RulesRun(Err(e))),
        ),
        (
            RulesTaskV::Running { ops, next, email_ids, result },
            EventV::Returned(OutcomeV::Unit(Ok(_))),
        ) => rules_go(b, ops, next, email_ids, result),
        (RulesTaskV::Running { .. }, EventV::Returned(OutcomeV::Unit(Err(e)))) => (
            b,
            TurnV::Return(OutcomeV::RulesRun(Err(e))),
        ),
        _ => (b, unexpected()),
    }
}

fn note_processed(b: &mut BackendState, ids: &Vec<String>)
    requires
        state_ok(old(b).deep_view()),
    ensures
        final(b).deep_view() == noted(old(b).deep_view(), ids.deep_view()),
        state_ok(final(b).deep_view()),
{
    match &mut b.cache {
        Some(c) => {
            c.mark_rules_processed(ids.as_slice());
        },
        None => {},
    }
}

fn go_on_with_rules(
    b: &mut BackendState,
    ops: Vec<QueuedMutation>,
    next: usize,
    email_ids: Vec<String>,
    result: RulesRunResult,
) -> (r: Turn)
    requires
        state_ok(old(b).deep_view()),
    ensures
        (final(b).deep_view(), r.deep_view()) == rules_go(
            old(b).deep_view(),
            ops.deep_view(),
            next,
            email_ids.deep_view(),
            result.deep_view(),
        ),
        state_ok(final(b).deep_view()),
{
    if next < ops.len() {
        let op = at(ops.as_slice(), next).dup();
        Turn::Spawn {
            task: Task::Rules(RulesTask::Running { ops, next: next + 1, email_ids, result }),
            child: Task::Mutate(MutateTask::Start { op }),
        }
    } else {
        note_processed(b, &email_ids);
        Turn::Return(Outcome::RulesRun(Ok(result)))
    }
}

fn rules_step(b: &mut BackendState, env: &BackendEnv, t: RulesTask, ev: Event) -> (r: Turn)
    requires
        state_ok(old(b).deep_view()),
    ensures
        (final(b).deep_view(), r.deep_view()) == rules_next(
            old(b).deep_view(),
            env.deep_view(),
            t.deep_view(),
            ev.deep_view(),
        ),
        state_ok(final(b).deep_view()),
{
    match (t, ev) {
        (RulesTask::Start { mailbox_id }, _) => {
            if env.rules.len() == 0 {
                return Turn::Return(
                    Outcome::RulesRun(
                        Ok(RulesRunResult { scanned: 0, matched_rules: 0, actions: 0 }),
                    ),
                );
            }
            Turn::Spawn {
                task: Task::Rules(RulesTask::Ids),
                child: Task::Ids(IdsTask::Start { mailbox_id }),
            }
        },
        (RulesTask::Ids, Event::Returned(Outcome::Ids(Ok(ids)))) => {
            if ids.len() == 0 {
                return Turn::Return(
                    Outcome::RulesRun(
                        Ok(RulesRunResult { scanned: 0, matched_rules: 0, actions: 0 }),
                    ),
                );
            }
            Turn::Spawn {
                task: Task::Rules(RulesTask::Emails),
                child: fetch_emails(ids, copy_list(&env.custom_headers), true),
            }
        },
        (RulesTask::Ids, Event::Returned(Outcome::Ids(Err(e)))) => Turn::Return(
            Outcome::RulesRun(Err(e)),
        ),
        (RulesTask::Emails, Event::Returned(Outcome::Emails(Ok(emails)))) => {
            let apps = apply_rules(
                env.rules.as_slice(),
                emails.as_slice(),
                b.mailboxes.as_slice(),
                &env.my_email_regex,
            );
            let result = RulesRunResult {
                scanned: emails.len(),
                matched_rules: apps.len(),
                actions: count_actions(&apps),
            };
            let ops = queued_mutations_for_rule_actions(
                apps.as_slice(),
                b.mailboxes.as_slice(),
                &mut b.next_op_id,
            );
            let ids = collect_email_ids(&emails);
            go_on_with_rules(b, ops, 0, ids, result)
        },
        (RulesTask::Emails, Event::Returned(Outcome::Emails(Err(e)))) => Turn::Return(
            Outcome::RulesRun(Err(e)),
        ),
        (
            RulesTask::Running { ops, next, email_ids, result },
            Event::Returned(Outcome::Unit(Ok(_))),
        ) => go_on_with_rules(b, ops, next, email_ids, result),
        (RulesTask::Running { .. }, Event::Returned(Outcome::Unit(Err(e)))) => Turn::Return(
            Outcome::RulesRun(Err(e)),
        ),
        _ => unexpected_reply(),
    }
}

// ---------------------------------------------------------------------------
// What the rules would do
// ---------------------------------------------------------------------------

/// The first sender of a message.
pub open spec fn first_sender(e: EmailV) -> Seq<char> {
    crate::compose::sender(e)
}

/// The day part of a timestamp: its first ten characters.
pub open spec fn day_part(received_at: Option<Seq<char>>) -> Seq<char> {
    match received_at {
        Some(d) => if d.len() > 10 {
            d.subrange(0, 10)
        } else {
            d
        },
        None => "(unknown)"@,
    }
}

/// The subject of a message, or a word for its absence.
pub open spec fn subject_or_none(e: EmailV) -> Seq<char> {
    match e.subject {
        Some(s) => s,
        None => "(no subject)"@,
    }
}

fn day_of(received_at: &Option<String>) -> (r: String)
    ensures
        r@ == day_part(received_at.deep_view()),
{
    match received_at {
        Some(d) => {
            let v = to_chars(d.as_str());
            if v.len() > 10 {
                slice_text(&v, 0, 10)
            } else {
                d.clone()
            }
        },
        None => "(unknown)".to_owned(),
    }
}

fn subject_of(e: &Email) -> (r: String)
    ensures
        r@ == subject_or_none(e.deep_view()),
{
    match &e.subject {
        Some(s) => s.clone(),
        None => "(no subject)".to_owned(),
    }
}

/// The last of the first `n` messages with an id.
pub open spec fn last_email(emails: Seq<EmailV>, id: Seq<char>, n: int) -> Option<EmailV>
    decreases n,
{
    if n <= 0 {
        None
    } else if emails[n - 1].id == id {
        Some(emails[n - 1])
    } else {
        last_email(emails, id, n - 1)
    }
}

fn find_last_email<'a>(emails: &'a Vec<Email>, id: &str) -> (r: Option<&'a Email>)
    ensures
        match r {
            Some(e) => last_email(emails.deep_view(), id@, emails@.len() as int) == Some(
                e.deep_view(),
            ),
            None => last_email(emails.deep_view(), id@, emails@.len() as int) is None,
        },
{
    let mut n: usize = emails.len();
    while n > 0
        invariant
            n <= emails@.len(),
            last_email(emails.deep_view(), id@, emails@.len() as int) == last_email(
                emails.deep_view(),
                id@,
                n as int,
            ),
        decreases n,
    {
        let e = at(emails.as_slice(), n - 1);
        if same(e.id.as_str(), id) {
            return Some(e);
        }
        n = n - 1;
    }
    None
}

/// What a rule would do to a message.
pub open spec fn dry_run_entry(app: RuleApplicationV, e: EmailV) -> RulesDryRunEntryV {
    RulesDryRunEntryV {
        received_at: day_part(e.received_at),
        from: first_sender(e),
        subject: subject_or_none(e),
        rule_name: app.rule_name,
        actions: app.actions.map_values(|a: ActionV| shown_action(a)),
    }
}

/// What the first `k` applications would do.
pub open spec fn dry_run_upto(apps: Seq<RuleApplicationV>, emails: Seq<EmailV>, k: int) -> Seq<
    RulesDryRunEntryV,
>
    decreases k,
{
    if k <= 0 {
        Seq::empty()
    } else {
        let before = dry_run_upto(apps, emails, k - 1);
        match last_email(emails, apps[k - 1].email_id, emails.len() as int) {
            Some(e) => before.push(dry_run_entry(apps[k - 1], e)),
            None => before,
        }
    }
}

fn make_entry(app: &RuleApplication, e: &Email) -> (r: RulesDryRunEntry)
    ensures
        r.deep_view() == dry_run_entry(app.deep_view(), e.deep_view()),
{
    let ghost av = app.actions.deep_view();
    let mut actions: Vec<String> = no_items();
    let mut i: usize = 0;
    while i < app.actions.len()
        invariant
            i <= app.actions@.len(),
            av == app.actions.deep_view(),
            actions.deep_view().len() == i,
            forall|j: int| 0 <= j < i ==> #[trigger] actions.deep_view()[j] == shown_action(av[j]),
        decreases app.actions@.len() - i,
    {
        put(&mut actions, format_action_name(at(app.actions.as_slice(), i)));
        i = i + 1;
    }
    assert(actions.deep_view() =~= av.map_values(|a: ActionV| shown_action(a)));
    RulesDryRunEntry {
        received_at: day_of(&e.received_at),
        from: crate::compose::sender_of(e),
        subject: subject_of(e),
        rule_name: app.rule_name.clone(),
        actions,
    }
}

fn make_entries(apps: &Vec<RuleApplication>, emails: &Vec<Email>) -> (r: Vec<RulesDryRunEntry>)
    ensures
        r.deep_view() == dry_run_upto(apps.deep_view(), emails.deep_view(), apps@.len() as int),
{
    let mut out: Vec<RulesDryRunEntry> = no_items();
    let mut i: usize = 0;
    while i < apps.len()
        invariant
            i <= apps@.len(),
            out.deep_view() == dry_run_upto(apps.deep_view(), emails.deep_view(), i as int),
        decreases apps@.len() - i,
    {
        let app = at(apps.as_slice(), i);
        match find_last_email(emails, app.email_id.as_str()) {
            Some(e) => {
                put(&mut out, make_entry(app, e));
            },
            None => {},
        }
        i = i + 1;
    }
    out
}

/// One step of finding out what the rules would do. Nothing is changed.
pub open spec fn preview_next(
    b: BackendStateV,
    env: BackendEnvV,
    t: PreviewTaskV,
    ev: EventV,
) -> TurnV {
    let nothing = RulesDryRunResultV {
        scanned: 0,
        matched_rules: 0,
        actions: 0,
        entries: Seq::empty(),
    };
    match (t, ev) {
        (PreviewTaskV::Start { mailbox_id }, _) => if env.rules.len() == 0 {
            TurnV::Return(OutcomeV::DryRun(Ok(nothing)))
        } else {
            TurnV::Spawn {
                task: TaskV::Preview(PreviewTaskV::Ids),
                child: TaskV::Ids(IdsTaskV::Start { mailbox_id }),
            }
        },
        (PreviewTaskV::Ids, EventV::Returned(OutcomeV::Ids(Ok(ids)))) => if ids.len() == 0 {
            TurnV::Return(OutcomeV::DryRun(Ok(nothing)))
        } else {
            TurnV::Spawn {
                task: TaskV::Preview(PreviewTaskV::Emails),
                child: fetch_task(ids, env.custom_headers, true),
            }
        },
        (PreviewTaskV::Ids, EventV::Returned(OutcomeV::Ids(Err(e)))) => TurnV::Return(
            OutcomeV::DryRun(Err(e)),
        ),
        (PreviewTaskV::Emails, EventV::Returned(OutcomeV::Emails(Ok(emails)))) => {
            let apps = asked_for(b, env, emails);
            TurnV::Return(
                OutcomeV::DryRun(
                    Ok(
                        RulesDryRunResultV {
                            scanned: emails.len() as usize,
                            matched_rules: apps.len() as usize,
                            actions: actions_upto(apps, apps.len() as int),
                            entries: dry_run_upto(apps, emails, apps.len() as int),
                        },
                    ),
                ),
            )
        },
        (PreviewTaskV::Emails, EventV::Returned(OutcomeV::Emails(Err(e)))) => TurnV::Return(
            OutcomeV::DryRun(Err(e)),
        ),
        _ => unexpected(),
    }
}

fn no_dry_run() -> (r: Turn)
    ensures
        r.deep_view() == TurnV::Return(
            OutcomeV::DryRun(
                Ok(
                    RulesDryRunResultV {
                        scanned: 0,
                        matched_rules: 0,
                        actions: 0,
                        entries: Seq::empty(),
                    },
                ),
            ),
        ),
{
    let entries: Vec<RulesDryRunEntry> = no_items();
    Turn::Return(
        Outcome::DryRun(
            Ok(RulesDryRunResult { scanned: 0, matched_rules: 0, actions: 0, entries }),
        ),
    )
}

fn preview_step(b: &BackendState, env: &BackendEnv, t: PreviewTask, ev: Event) -> (r: Turn)
    ensures
        r.deep_view() == preview_next(
            b.deep_view(),
            env.deep_view(),
            t.deep_view(),
            ev.deep_view(),
        ),
{
    match (t, ev) {
        (PreviewTask::Start { mailbox_id }, _) => {
            if env.rules.len() == 0 {
                return no_dry_run();
            }
            Turn::Spawn {
                task: Task::Preview(PreviewTask::Ids),
                child: Task::Ids(IdsTask::Start { mailbox_id }),
            }
        },
        (PreviewTask::Ids, Event::Returned(Outcome::Ids(Ok(ids)))) => {
            if ids.len() == 0 {
                return no_dry_run();
            }
            Turn::Spawn {
                task: Task::Preview(PreviewTask::Emails),
                child: fetch_emails(ids, copy_list(&env.custom_headers), true),
            }
        },
        (PreviewTask::Ids, Event::Returned(Outcome::Ids(Err(e)))) => Turn::Return(
            Outcome::DryRun(Err(e)),
        ),
        (PreviewTask::Emails, Event::Returned(Outcome::Emails(Ok(emails)))) => {
            let apps = apply_rules(
                env.rules.as_slice(),
                emails.as_slice(),
                b.mailboxes.as_slice(),
                &env.my_email_regex,
            );
            Turn::Return(
                Outcome::DryRun(
                    Ok(
                        RulesDryRunResult {
                            scanned: emails.len(),
                            matched_rules: apps.len(),
                            actions: count_actions(&apps),
                            entries: make_entries(&apps, &emails),
                        },
                    ),
                ),
            )
        },
        (PreviewTask::Emails, Event::Returned(Outcome::Emails(Err(e)))) => Turn::Return(
            Outcome::DryRun(Err(e)),
        ),
        _ => unexpected_reply(),
    }
}

// ---------------------------------------------------------------------------
// Retention
// ---------------------------------------------------------------------------

/// The name of the first mailbox at or after `i` with an id.
pub open spec fn mailbox_named(s: Seq<MailboxV>, id: Seq<char>, i: int) -> Option<MailboxV>
    decreases s.len() - i,
{
    if i >= s.len() {
        None
    } else if s[i].id == id {
        Some(s[i])
    } else {
        mailbox_named(s, id, i + 1)
    }
}

/// The first mailbox with an id.
pub fn find_mailbox<'a>(mailboxes: &'a Vec<Mailbox>, id: &str) -> (r: Option<&'a Mailbox>)
    ensures
        match r {
            Some(m) => mailbox_named(mailboxes.deep_view(), id@, 0) == Some(m.deep_view()),
            None => mailbox_named(mailboxes.deep_view(), id@, 0) is None,
        },
{
    let mut i: usize = 0;
    while i < mailboxes.len()
        invariant
            i <= mailboxes@.len(),
            mailbox_named(mailboxes.deep_view(), id@, 0) == mailbox_named(
                mailboxes.deep_view(),
                id@,
                i as int,
            ),
        decreases mailboxes@.len() - i,
    {
        let m = at(mailboxes.as_slice(), i);
        if same(m.id.as_str(), id) {
            return Some(m);
        }
        i = i + 1;
    }
    None
}

/// Whether a message is older than a policy keeps it.
pub open spec fn expired(e: EmailV, today: i64, days: u32) -> bool {
    match received_days(e) {
        Some(d) => d < today - days,
        None => false,
    }
}

/// A message that a policy lets go.
pub open spec fn candidate(e: EmailV, x: ExpiryV) -> RetentionCandidateV {
    RetentionCandidateV {
        id: e.id,
        mailbox: x.mailbox_name,
        policy: x.policy_name,
        received_at: day_part(e.received_at),
        from: first_sender(e),
        subject: subject_or_none(e),
    }
}

/// What is known once the first `k` messages of a page have been looked at. A message
/// that is older than the policy keeps it is let go, unless an earlier policy has let
/// it go already.
pub open spec fn looked_upto(x: ExpiryV, emails: Seq<EmailV>, k: int) -> ExpiryV
    decreases k,
{
    if k <= 0 {
        x
    } else {
        let y = looked_upto(x, emails, k - 1);
        let e = emails[k - 1];
        if expired(e, y.today, y.days) && !y.seen.contains(e.id) {
            ExpiryV {
                seen: y.seen.push(e.id),
                candidates: y.candidates.push(candidate(e, y)),
                ..y
            }
        } else {
            y
        }
    }
}

fn look_at_emails(x: &mut Expiry, emails: &Vec<Email>)
    ensures
        final(x).deep_view() == looked_upto(
            old(x).deep_view(),
            emails.deep_view(),
            emails@.len() as int,
        ),
{
    let ghost start = x.deep_view();
    let mut i: usize = 0;
    while i < emails.len()
        invariant
            i <= emails@.len(),
            x.deep_view() == looked_upto(start, emails.deep_view(), i as int),
        decreases emails@.len() - i,
    {
        let e = at(emails.as_slice(), i);
        let old_enough = match email_received_days(e) {
            Some(d) => (d as i128) < x.today as i128 - x.days as i128,
            None => false,
        };
        if old_enough && !list_contains(&x.seen, e.id.as_str()) {
            put(&mut x.seen, e.id.clone());
            let c = RetentionCandidate {
                id: e.id.clone(),
                mailbox: x.mailbox_name.clone(),
                policy: x.policy_name.clone(),
                received_at: day_of(&e.received_at),
                from: crate::compose::sender_of(e),
                subject: subject_of(e),
            };
            put(&mut x.candidates, c);
        }
        i = i + 1;
    }
}

/// The order in which messages that are let go are listed: by day, then by
/// mailbox, then by subject.
pub open spec fn candidate_le(a: RetentionCandidateV, b: RetentionCandidateV) -> bool {
    if a.received_at != b.received_at {
        text_le(a.received_at, b.received_at)
    } else if a.mailbox != b.mailbox {
        text_le(a.mailbox, b.mailbox)
    } else {
        text_le(a.subject, b.subject)
    }
}

/// The first policy at or after `i` whose folder exists, or the number of
/// policies.
pub open spec fn usable_policy(
    policies: Seq<RetentionPolicyConfigV>,
    mailboxes: Seq<MailboxV>,
    i: int,
) -> int
    decreases policies.len() - i,
{
    if i >= policies.len() {
        policies.len() as int
    } else if resolved_mailbox(policies[i].folder, mailboxes) is Some {
        i
    } else {
        usable_policy(policies, mailboxes, i + 1)
    }
}

/// The next policy is taken up at its first page; after the last one what was
/// found is returned in order. Policies whose folder does not exist are passed
/// over.
pub open spec fn expire_go(b: BackendStateV, x: ExpiryV) -> TurnV {
    let i = usable_policy(x.policies, b.mailboxes, x.next as int);
    if i >= x.policies.len() {
        TurnV::Return(
            OutcomeV::Candidates(
                Ok(
                    sorted(
                        x.candidates,
                        |a: RetentionCandidateV, c: RetentionCandidateV| candidate_le(a, c),
                    ),
                ),
            ),
        )
    } else {
        let p = x.policies[i];
        let mailbox_id = resolved_mailbox(p.folder, b.mailboxes)->0;
        let y = ExpiryV {
            next: (i + 1) as usize,
            mailbox_id,
            mailbox_name: match mailbox_named(b.mailboxes, mailbox_id, 0) {
                Some(m) => m.name,
                None => p.folder,
            },
            policy_name: p.name,
            days: p.days,
            ..x
        };
        expire_page(y, 0)
    }
}

/// A page of the mailbox at hand is asked for.
pub open spec fn expire_page(x: ExpiryV, position: u32) -> TurnV {
    TurnV::Call {
        task: TaskV::Expire(ExpireTaskV::Page { expiry: x }),
        request: RequestV::QueryUncollapsed { mailbox_id: x.mailbox_id, limit: 500, position },
    }
}

/// One step of looking for messages that retention policies let go.
pub open spec fn expire_next(b: BackendStateV, t: ExpireTaskV, ev: EventV) -> TurnV {
    match (t, ev) {
        (ExpireTaskV::Start { policies }, _) => if policies.len() == 0 {
            TurnV::Return(OutcomeV::Candidates(Ok(Seq::empty())))
        } else {
            TurnV::Call {
                task: TaskV::Expire(ExpireTaskV::Day { policies }),
                request: RequestV::Today,
            }
        },
        (ExpireTaskV::Day { policies }, EventV::Reply(ReplyV::Day(Ok(today)))) => expire_go(
            b,
            ExpiryV {
                policies,
                next: 0,
                today,
                mailbox_id: Seq::empty(),
                mailbox_name: Seq::empty(),
                policy_name: Seq::empty(),
                days: 0,
                seen: Seq::empty(),
                candidates: Seq::empty(),
            },
        ),
        (ExpireTaskV::Day { .. }, EventV::Reply(ReplyV::Day(Err(e)))) => TurnV::Return(
            OutcomeV::Candidates(Err(e)),
        ),
        (ExpireTaskV::Page { expiry }, EventV::Reply(ReplyV::Page(Ok(page)))) => if page.ids.len()
            == 0 {
            expire_go(b, expiry)
        } else {
            TurnV::Spawn {
                task: TaskV::Expire(ExpireTaskV::Emails { expiry, page }),
                child: fetch_task(page.ids, Seq::empty(), false),
            }
        },
        (ExpireTaskV::Page { .. }, EventV::Reply(ReplyV::Page(Err(e)))) => TurnV::Return(
            OutcomeV::Candidates(Err(e)),
        ),
        (
            ExpireTaskV::Emails { expiry, page },
            EventV::Returned(OutcomeV::Emails(Ok(emails))),
        ) => {
            let y = looked_upto(expiry, emails, emails.len() as int);
            if last_page(page) {
                expire_go(b, y)
            } else {
                expire_page(y, next_position(page))
            }
        },
        (ExpireTaskV::Emails { .. }, EventV::Returned(OutcomeV::Emails(Err(e)))) => TurnV::Return(
            OutcomeV::Candidates(Err(e)),
        ),
        _ => unexpected(),
    }
}

fn ask_for_page(x: Expiry, position: u32) -> (r: Turn)
    ensures
        r.deep_view() == expire_page(x.deep_view(), position),
{
    let request = Request::QueryUncollapsed {
        mailbox_id: x.mailbox_id.clone(),
        limit: 500,
        position,
    };
    Turn::Call { task: Task::Expire(ExpireTask::Page { expiry: x }), request }
}

fn go_on_expiring(b: &BackendState, x: Expiry) -> (r: Turn)
    ensures
        r.deep_view() == expire_go(b.deep_view(), x.deep_view()),
{
    let ghost xv = x.deep_view();
    let ghost mv = b.mailboxes.deep_view();
    let mut i: usize = x.next;
    while i < x.policies.len()
        invariant
            xv == x.deep_view(),
            mv == b.mailboxes.deep_view(),
            usable_policy(xv.policies, mv, xv.next as int) == usable_policy(
                xv.policies,
                mv,
                i as int,
            ),
        decreases x.policies@.len() - i,
    {
        let p = at(x.policies.as_slice(), i);
        match resolve_mailbox_id(p.folder.as_str(), b.mailboxes.as_slice()) {
            Some(mailbox_id) => {
                let mailbox_name = match find_mailbox(&b.mailboxes, mailbox_id.as_str()) {
                    Some(m) => m.name.clone(),
                    None => p.folder.clone(),
                };
                let policy_name = p.name.clone();
                let days: u32 = p.days;
                let y = Expiry {
                    policies: x.policies,
                    next: i + 1,
                    today: x.today,
                    mailbox_id,
                    mailbox_name,
                    policy_name,
                    days,
                    seen: x.seen,
                    candidates: x.candidates,
                };
                return ask_for_page(y, 0);
            },
            None => {},
        }
        i = i + 1;
    }
    let f = |a: &RetentionCandidate, c: &RetentionCandidate| -> (o: bool)
        ensures
            o == candidate_le(a.deep_view(), c.deep_view()),
        {
            if !same(a.received_at.as_str(), c.received_at.as_str()) {
                is_text_le(a.received_at.as_str(), c.received_at.as_str())
            } else if !same(a.mailbox.as_str(), c.mailbox.as_str()) {
                is_text_le(a.mailbox.as_str(), c.mailbox.as_str())
            } else {
                is_text_le(a.subject.as_str(), c.subject.as_str())
            }
        };
    let found = sort_by(
        x.candidates,
        f,
        Ghost(|a: RetentionCandidateV, c: RetentionCandidateV| candidate_le(a, c)),
    );
    Turn::Return(Outcome::Candidates(Ok(found)))
}

fn expire_step(b: &BackendState, t: ExpireTask, ev: Event) -> (r: Turn)
    ensures
        r.deep_view() == expire_next(b.deep_view(), t.deep_view(), ev.deep_view()),
{
    match (t, ev) {
        (ExpireTask::Start { policies }, _) => {
            if policies.len() == 0 {
                let none: Vec<RetentionCandidate> = no_items();
                return Turn::Return(Outcome::Candidates(Ok(none)));
            }
            Turn::Call {
                task: Task::Expire(ExpireTask::Day { policies }),
                request: Request::Today,
            }
        },
        (ExpireTask::Day { policies }, Event::Reply(Reply::Day(Ok(today)))) => {
            let seen: Vec<String> = no_items();
            let candidates: Vec<RetentionCandidate> = no_items();
            go_on_expiring(
                b,
                Expiry {
                    policies,
                    next: 0,
                    today,
                    mailbox_id: String::new(),
                    mailbox_name: String::new(),
                    policy_name: String::new(),
                    days: 0,
                    seen,
                    candidates,
                },
            )
        },
        (ExpireTask::Day { .. }, Event::Reply(Reply::Day(Err(e)))) => Turn::Return(
            Outcome::Candidates(Err(e)),
        ),
        (ExpireTask::Page { expiry }, Event::Reply(Reply::Page(Ok(page)))) => {
            if page.ids.len() == 0 {
                return go_on_expiring(b, expiry);
            }
            let ids = copy_list(&page.ids);
            Turn::Spawn {
                task: Task::Expire(ExpireTask::Emails { expiry, page }),
                child: fetch_emails(ids, no_items(), false),
            }
        },
        (ExpireTask::Page { .. }, Event::Reply(Reply::Page(Err(e)))) => Turn::Return(
            Outcome::Candidates(Err(e)),
        ),
        (ExpireTask::Emails { expiry, page }, Event::Returned(Outcome::Emails(Ok(emails)))) => {
            let mut expiry = expiry;
            look_at_emails(&mut expiry, &emails);
            if is_last_page(&page) {
                go_on_expiring(b, expiry)
            } else {
                ask_for_page(expiry, position_after(&page))
            }
        },
        (ExpireTask::Emails { .. }, Event::Returned(Outcome::Emails(Err(e)))) => Turn::Return(
            Outcome::Candidates(Err(e)),
        ),
        _ => unexpected_reply(),
    }
}

// ---------------------------------------------------------------------------
// Queries
// ---------------------------------------------------------------------------

/// Whether a query has neither search terms nor dates.
pub open spec fn is_plain(
    search: Option<Seq<char>>,
    after: Option<Seq<char>>,
    before: Option<Seq<char>>,
) -> bool {
    search is None && after is None && before is None
}

/// The request for a page of messages.
pub open spec fn page_request(cmd: BackendCommandV) -> TurnV {
    match cmd {
        BackendCommandV::QueryEmails {
            mailbox_id,
            page_size,
            position,
            search_query,
            received_after,
            received_before,
            ..
        } => TurnV::Call {
            task: TaskV::Command(
                CommandTaskV::Page {
                    query: QueryV {
                        mailbox_id,
                        position,
                        plain: is_plain(search_query, received_after, received_before),
                    },
                },
            ),
            request: RequestV::QueryEmails {
                mailbox_id,
                page_size,
                position,
                search_query,
                received_after,
                received_before,
            },
        },
        _ => TurnV::Finish,
    }
}

/// The page that the cache knows, for a console that can show it at once.
pub open spec fn cached_first(b: BackendStateV, cmd: BackendCommandV) -> Option<BackendResponseV> {
    match cmd {
        BackendCommandV::QueryEmails {
            origin,
            mailbox_id,
            position,
            search_query,
            received_after,
            received_before,
            ..
        } => if begins(origin, "cli"@) || position != 0 || !is_plain(
            search_query,
            received_after,
            received_before,
        ) || b.cache is None {
            None
        } else {
            match mailbox_emails(b.cache->0, mailbox_id) {
                Some(emails) => Some(
                    BackendResponseV::Emails {
                        mailbox_id,
                        emails: Ok(emails),
                        total: match mailbox_named(b.mailboxes, mailbox_id, 0) {
                            Some(m) => Some(m.total_emails),
                            None => None,
                        },
                        position: 0,
                        loaded: emails.len() as u32,
                        thread_counts: Seq::empty(),
                    },
                ),
                None => None,
            }
        },
        _ => None,
    }
}

fn ask_for_query(cmd: &BackendCommand) -> (r: Turn)
    ensures
        r.deep_view() == page_request(cmd.deep_view()),
{
    match cmd {
        BackendCommand::QueryEmails {
            mailbox_id,
            page_size,
            position,
            search_query,
            received_after,
            received_before,
            ..
        } => Turn::Call {
            task: Task::Command(
                CommandTask::Page {
                    query: Query {
                        mailbox_id: mailbox_id.clone(),
                        position: *position,
                        plain: search_query.is_none() && received_after.is_none()
                            && received_before.is_none(),
                    },
                },
            ),
            request: Request::QueryEmails {
                mailbox_id: mailbox_id.clone(),
                page_size: *page_size,
                position: *position,
                search_query: search_query.dup(),
                received_after: received_after.dup(),
                received_before: received_before.dup(),
            },
        },
        _ => Turn::Finish,
    }
}

fn find_cached_first(b: &BackendState, cmd: &BackendCommand) -> (r: Option<BackendResponse>)
    ensures
        r.deep_view() == cached_first(b.deep_view(), cmd.deep_view()),
{
    match cmd {
        BackendCommand::QueryEmails {
            origin,
            mailbox_id,
            position,
            search_query,
            received_after,
            received_before,
            ..
        } => {
            if starts_with(origin.as_str(), "cli") || *position != 0 || search_query.is_some()
                || received_after.is_some() || received_before.is_some() {
                return None;
            }
            match &b.cache {
                Some(c) => match c.get_mailbox_emails(mailbox_id.as_str()) {
                    Some(emails) => {
                        let total = match find_mailbox(&b.mailboxes, mailbox_id.as_str()) {
                            Some(m) => Some(m.total_emails),
                            None => None,
                        };
                        let loaded: u32 = short_count(emails.len());
                        Some(
                            BackendResponse::Emails {
                                mailbox_id: mailbox_id.clone(),
                                emails: Ok(emails),
                                total,
                                position: 0,
                                loaded,
                                thread_counts: StrMap::new(),
                            },
                        )
                    },
                    None => None,
                },
                None => None,
            }
        },
        _ => None,
    }
}

/// The state once a page of messages has been fetched: the messages are kept, and
/// the first page of a plain query is kept as the mailbox's index.
pub open spec fn page_kept(
    b: BackendStateV,
    query: QueryV,
    page: EmailQueryResultV,
    emails: Seq<EmailV>,
) -> BackendStateV {
    BackendStateV {
        cache: match b.cache {
            Some(c) => Some(
                CacheV {
                    emails: emails_put_upto(c.emails, emails, emails.len() as int),
                    mailbox_index: if page.position == 0 && query.plain {
                        with_entry(c.mailbox_index, query.mailbox_id, ids_of(emails))
                    } else {
                        c.mailbox_index
                    },
                    ..c
                },
            ),
            None => None,
        },
        ..b
    }
}

/// Those of the first `k` messages that the rules have not seen.
pub open spec fn unseen_upto(cache: Option<CacheV>, emails: Seq<EmailV>, k: int) -> Seq<EmailV>
    decreases k,
{
    if k <= 0 {
        Seq::empty()
    } else {
        let before = unseen_upto(cache, emails, k - 1);
        let seen = match cache {
            Some(c) => lookup(c.rules_processed, emails[k - 1].id) is Some,
            None => false,
        };
        if seen {
            before
        } else {
            before.push(emails[k - 1])
        }
    }
}

/// Whether the rules run by themselves on what is fetched from a mailbox.
pub open spec fn rules_watch(b: BackendStateV, env: BackendEnvV, mailbox_id: Seq<char>) -> bool {
    env.rules.len() > 0 && regex_found(
        env.rules_mailbox_regex,
        match mailbox_named(b.mailboxes, mailbox_id, 0) {
            Some(m) => m.name,
            None => Seq::empty(),
        },
    )
}

/// Whether one of the first `k` changes moves a message.
pub open spec fn moves_upto(ops: Seq<QueuedMutationV>, id: Seq<char>, k: int) -> bool
    decreases k,
{
    k > 0 && (moves_upto(ops, id, k - 1) || match ops[k - 1] {
        QueuedMutationV::MoveEmail { id: moved, .. } => moved == id,
        _ => false,
    })
}

/// Those of the first `k` messages that no change moves.
pub open spec fn staying_upto(emails: Seq<EmailV>, ops: Seq<QueuedMutationV>, k: int) -> Seq<EmailV>
    decreases k,
{
    if k <= 0 {
        Seq::empty()
    } else if moves_upto(ops, emails[k - 1].id, ops.len() as int) {
        staying_upto(emails, ops, k - 1)
    } else {
        staying_upto(emails, ops, k - 1).push(emails[k - 1])
    }
}

/// The threads of the first `k` messages.
pub open spec fn threads_of_upto(emails: Seq<EmailV>, k: int) -> Seq<Seq<char>>
    decreases k,
{
    if k <= 0 {
        Seq::empty()
    } else {
        match emails[k - 1].thread_id {
            Some(t) => threads_of_upto(emails, k - 1).push(t),
            None => threads_of_upto(emails, k - 1),
        }
    }
}

/// The ids of the messages of the first `k` threads.
pub open spec fn members_upto(threads: Seq<ThreadV>, k: int) -> Seq<Seq<char>>
    decreases k,
{
    if k <= 0 {
        Seq::empty()
    } else {
        members_upto(threads, k - 1) + threads[k - 1].email_ids
    }
}

/// How many of the first `k` messages of a thread are in a mailbox unread, and how
/// many are in it at all.
pub open spec fn thread_count_upto(
    ids: Seq<Seq<char>>,
    emails: Seq<EmailV>,
    mailbox_id: Seq<char>,
    k: int,
) -> (usize, usize)
    decreases k,
{
    if k <= 0 {
        (0, 0)
    } else {
        let (unread, total) = thread_count_upto(ids, emails, mailbox_id, k - 1);
        match last_email(emails, ids[k - 1], emails.len() as int) {
            Some(e) => if lookup(e.mailbox_ids, mailbox_id) is None {
                (unread, total)
            } else if is_seen(e) {
                (unread, (total + 1) as usize)
            } else {
                ((unread + 1) as usize, (total + 1) as usize)
            },
            None => (unread, total),
        }
    }
}

/// The counts of the first `k` threads.
pub open spec fn thread_counts_upto(
    threads: Seq<ThreadV>,
    emails: Seq<EmailV>,
    mailbox_id: Seq<char>,
    k: int,
) -> Seq<(Seq<char>, (usize, usize))>
    decreases k,
{
    if k <= 0 {
        Seq::empty()
    } else {
        let t = threads[k - 1];
        with_entry(
            thread_counts_upto(threads, emails, mailbox_id, k - 1),
            t.id,
            thread_count_upto(t.email_ids, emails, mailbox_id, t.email_ids.len() as int),
        )
    }
}

/// The response with a page of messages.
pub open spec fn page_response(
    query: QueryV,
    page: EmailQueryResultV,
    emails: Seq<EmailV>,
    thread_counts: Seq<(Seq<char>, (usize, usize))>,
) -> TurnV {
    TurnV::Say {
        task: None,
        response: BackendResponseV::Emails {
            mailbox_id: query.mailbox_id,
            emails: Ok(emails),
            total: page.total,
            position: page.position,
            loaded: page.ids.len() as u32,
            thread_counts,
        },
    }
}

/// The response to a query that failed.
pub open spec fn query_failed(query: QueryV, e: Seq<char>) -> TurnV {
    TurnV::Say {
        task: None,
        response: BackendResponseV::Emails {
            mailbox_id: query.mailbox_id,
            emails: Err(e),
            total: None,
            position: query.position,
            loaded: 0,
            thread_counts: Seq::empty(),
        },
    }
}

/// The threads of a page are asked for, if its messages have any.
pub open spec fn threads_go(
    query: QueryV,
    page: EmailQueryResultV,
    emails: Seq<EmailV>,
) -> TurnV {
    let ids = threads_of_upto(emails, emails.len() as int);
    if ids.len() == 0 {
        page_response(query, page, emails, Seq::empty())
    } else {
        TurnV::Call {
            task: TaskV::Command(CommandTaskV::Threads { query, page, emails }),
            request: RequestV::GetThreads { ids },
        }
    }
}

/// The next change that the rules ask for is carried out; after the last one the
/// messages that moved are left out of the page, and the others are noted as seen
/// by the rules.
pub open spec fn query_rules_go(
    b: BackendStateV,
    query: QueryV,
    page: EmailQueryResultV,
    emails: Seq<EmailV>,
    ops: Seq<QueuedMutationV>,
    next: usize,
) -> (BackendStateV, TurnV) {
    if next < ops.len() {
        (
            b,
            TurnV::Spawn {
                task: TaskV::Command(
                    CommandTaskV::QueryRules { query, page, emails, ops, next: (next + 1) as usize },
                ),
                child: TaskV::Mutate(MutateTaskV::Start { op: ops[next as int] }),
            },
        )
    } else {
        let kept = staying_upto(emails, ops, emails.len() as int);
        (noted(b, ids_of(kept)), threads_go(query, page, kept))
    }
}

/// What follows once the messages of a page are here.
pub open spec fn page_fetched(
    b: BackendStateV,
    env: BackendEnvV,
    query: QueryV,
    page: EmailQueryResultV,
    emails: Seq<EmailV>,
) -> (BackendStateV, TurnV) {
    let c = page_kept(b, query, page, emails);
    if rules_watch(c, env, query.mailbox_id) {
        let fresh = unseen_upto(c.cache, emails, emails.len() as int);
        let apps = asked_for(c, env, fresh);
        let (ops, counter) = rule_mutations_upto(
            apps,
            c.mailboxes,
            c.next_op_id,
            apps.len() as int,
        );
        query_rules_go(BackendStateV { next_op_id: counter, ..c }, query, page, emails, ops, 0)
    } else {
        (c, threads_go(query, page, emails))
    }
}

fn keep_page(b: &mut BackendState, query: &Query, page: &EmailQueryResult, emails: &Vec<Email>)
    requires
        state_ok(old(b).deep_view()),
    ensures
        final(b).deep_view() == page_kept(
            old(b).deep_view(),
            query.deep_view(),
            page.deep_view(),
            emails.deep_view(),
        ),
        state_ok(final(b).deep_view()),
{
    match &mut b.cache {
        Some(c) => {
            c.put_emails(emails.as_slice());
            if page.position == 0 && query.plain {
                let ids = collect_email_ids(emails);
                c.put_mailbox_index(query.mailbox_id.as_str(), ids.as_slice());
            }
        },
        None => {},
    }
}

fn find_unseen(cache: &Option<Cache>, emails: &Vec<Email>) -> (r: Vec<Email>)
    ensures
        r.deep_view() == unseen_upto(cache.deep_view(), emails.deep_view(), emails@.len() as int),
{
    let mut out: Vec<Email> = no_items();
    let mut i: usize = 0;
    while i < emails.len()
        invariant
            i <= emails@.len(),
            out.deep_view() == unseen_upto(cache.deep_view(), emails.deep_view(), i as int),
        decreases emails@.len() - i,
    {
        let e = at(emails.as_slice(), i);
        let seen = match cache {
            Some(c) => c.is_rules_processed(e.id.as_str()),
            None => false,
        };
        if !seen {
            put(&mut out, e.dup());
        }
        i = i + 1;
    }
    out
}

fn is_moved(ops: &Vec<QueuedMutation>, id: &str) -> (r: bool)
    ensures
        r == moves_upto(ops.deep_view(), id@, ops@.len() as int),
{
    let mut found = false;
    let mut i: usize = 0;
    while i < ops.len()
        invariant
            i <= ops@.len(),
            found == moves_upto(ops.deep_view(), id@, i as int),
        decreases ops@.len() - i,
    {
        match at(ops.as_slice(), i) {
            QueuedMutation::MoveEmail { id: moved, .. } => {
                if same(moved.as_str(), id) {
                    found = true;
                }
            },
            _ => {},
        }
        i = i + 1;
    }
    found
}

fn keep_staying(emails: &Vec<Email>, ops: &Vec<QueuedMutation>) -> (r: Vec<Email>)
    ensures
        r.deep_view() == staying_upto(emails.deep_view(), ops.deep_view(), emails@.len() as int),
{
    let mut out: Vec<Email> = no_items();
    let mut i: usize = 0;
    while i < emails.len()
        invariant
            i <= emails@.len(),
            out.deep_view() == staying_upto(emails.deep_view(), ops.deep_view(), i as int),
        decreases emails@.len() - i,
    {
        let e = at(emails.as_slice(), i);
        if !is_moved(ops, e.id.as_str()) {
            put(&mut out, e.dup());
        }
        i = i + 1;
    }
    out
}

fn collect_threads(emails: &Vec<Email>) -> (r: Vec<String>)
    ensures
        r.deep_view() == threads_of_upto(emails.deep_view(), emails@.len() as int),
{
    let mut out: Vec<String> = no_items();
    let mut i: usize = 0;
    while i < emails.len()
        invariant
            i <= emails@.len(),
            out.deep_view() == threads_of_upto(emails.deep_view(), i as int),
        decreases emails@.len() - i,
    {
        match &at(emails.as_slice(), i).thread_id {
            Some(t) => {
                put(&mut out, t.clone());
            },
            None => {},
        }
        i = i + 1;
    }
    out
}

fn collect_members(threads: &Vec<Thread>) -> (r: Vec<String>)
    ensures
        r.deep_view() == members_upto(threads.deep_view(), threads@.len() as int),
{
    let mut out: Vec<String> = no_items();
    let mut i: usize = 0;
    while i < threads.len()
        invariant
            i <= threads@.len(),
            out.deep_view() == members_upto(threads.deep_view(), i as int),
        decreases threads@.len() - i,
    {
        put_all(&mut out, copy_list(&at(threads.as_slice(), i).email_ids));
        i = i + 1;
    }
    out
}

fn count_thread(ids: &Vec<String>, emails: &Vec<Email>, mailbox_id: &str) -> (r: (usize, usize))
    ensures
        r == thread_count_upto(
            ids.deep_view(),
            emails.deep_view(),
            mailbox_id@,
            ids@.len() as int,
        ),
{
    let mut unread: usize = 0;
    let mut total: usize = 0;
    let mut i: usize = 0;
    while i < ids.len()
        invariant
            i <= ids@.len(),
            unread <= i,
            total <= i,
            (unread, total) == thread_count_upto(
                ids.deep_view(),
                emails.deep_view(),
                mailbox_id@,
                i as int,
            ),
        decreases ids@.len() - i,
    {
        match find_last_email(emails, at(ids.as_slice(), i).as_str()) {
            Some(e) => {
                if e.mailbox_ids.contains_key(mailbox_id) {
                    total = total + 1;
                    if !e.keywords.contains_key("$seen") {
                        unread = unread + 1;
                    }
                }
            },
            None => {},
        }
        i = i + 1;
    }
    (unread, total)
}

fn count_threads(threads: &Vec<Thread>, emails: &Vec<Email>, mailbox_id: &str) -> (r: StrMap<
    (usize, usize),
>)
    ensures
        r.deep_view() == thread_counts_upto(
            threads.deep_view(),
            emails.deep_view(),
            mailbox_id@,
            threads@.len() as int,
        ),
{
    let mut out: StrMap<(usize, usize)> = StrMap::new();
    let mut i: usize = 0;
    while i < threads.len()
        invariant
            i <= threads@.len(),
            out.deep_view() == thread_counts_upto(
                threads.deep_view(),
                emails.deep_view(),
                mailbox_id@,
                i as int,
            ),
        decreases threads@.len() - i,
    {
        let t = at(threads.as_slice(), i);
        out.insert(t.id.clone(), count_thread(&t.email_ids, emails, mailbox_id));
        i = i + 1;
    }
    out
}

fn respond_with_page(
    query: Query,
    page: EmailQueryResult,
    emails: Vec<Email>,
    thread_counts: StrMap<(usize, usize)>,
) -> (r: Turn)
    ensures
        r.deep_view() == page_response(
            query.deep_view(),
            page.deep_view(),
            emails.deep_view(),
            thread_counts.deep_view(),
        ),
{
    let loaded: u32 = short_count(page.ids.len());
    Turn::Say {
        task: None,
        response: BackendResponse::Emails {
            mailbox_id: query.mailbox_id,
            emails: Ok(emails),
            total: page.total,
            position: page.position,
            loaded,
            thread_counts,
        },
    }
}

fn respond_query_failed(query: Query, e: String) -> (r: Turn)
    ensures
        r.deep_view() == query_failed(query.deep_view(), e@),
{
    Turn::Say {
        task: None,
        response: BackendResponse::Emails {
            mailbox_id: query.mailbox_id,
            emails: Err(e),
            total: None,
            position: query.position,
            loaded: 0,
            thread_counts: StrMap::new(),
        },
    }
}

fn ask_for_threads(query: Query, page: EmailQueryResult, emails: Vec<Email>) -> (r: Turn)
    ensures
        r.deep_view() == threads_go(query.deep_view(), page.deep_view(), emails.deep_view()),
{
    let ids = collect_threads(&emails);
    if ids.len() == 0 {
        respond_with_page(query, page, emails, StrMap::new())
    } else {
        Turn::Call {
            task: Task::Command(CommandTask::Threads { query, page, emails }),
            request: Request::GetThreads { ids },
        }
    }
}

fn go_on_with_query_rules(
    b: &mut BackendState,
    query: Query,
    page: EmailQueryResult,
    emails: Vec<Email>,
    ops: Vec<QueuedMutation>,
    next: usize,
) -> (r: Turn)
    requires
        state_ok(old(b).deep_view()),
    ensures
        (final(b).deep_view(), r.deep_view()) == query_rules_go(
            old(b).deep_view(),
            query.deep_view(),
            page.deep_view(),
            emails.deep_view(),
            ops.deep_view(),
            next,
        ),
        state_ok(final(b).deep_view()),
{
    if next < ops.len() {
        let op = at(ops.as_slice(), next).dup();
        Turn::Spawn {
            task: Task::Command(
                CommandTask::QueryRules { query, page, emails, ops, next: next + 1 },
            ),
            child: Task::Mutate(MutateTask::Start { op }),
        }
    } else {
        let kept = keep_staying(&emails, &ops);
        let ids = collect_email_ids(&kept);
        note_processed(b, &ids);
        ask_for_threads(query, page, kept)
    }
}

fn go_on_with_page(
    b: &mut BackendState,
    env: &BackendEnv,
    query: Query,
    page: EmailQueryResult,
    emails: Vec<Email>,
) -> (r: Turn)
    requires
        state_ok(old(b).deep_view()),
    ensures
        (final(b).deep_view(), r.deep_view()) == page_fetched(
            old(b).deep_view(),
            env.deep_view(),
            query.deep_view(),
            page.deep_view(),
            emails.deep_view(),
        ),
        state_ok(final(b).deep_view()),
{
    keep_page(b, &query, &page, &emails);
    let watched = if env.rules.len() > 0 {
        let name = match find_mailbox(&b.mailboxes, query.mailbox_id.as_str()) {
            Some(m) => m.name.clone(),
            None => String::new(),
        };
        env.rules_mailbox_regex.is_match(name.as_str())
    } else {
        false
    };
    if !watched {
        return ask_for_threads(query, page, emails);
    }
    let fresh = find_unseen(&b.cache, &emails);
    let apps = apply_rules(
        env.rules.as_slice(),
        fresh.as_slice(),
        b.mailboxes.as_slice(),
        &env.my_email_regex,
    );
    let ops = queued_mutations_for_rule_actions(
        apps.as_slice(),
        b.mailboxes.as_slice(),
        &mut b.next_op_id,
    );
    go_on_with_query_rules(b, query, page, emails, ops, 0)
}

// ---------------------------------------------------------------------------
// Commands
// ---------------------------------------------------------------------------

/// The state once the mailboxes are here.
pub open spec fn mailboxes_kept(b: BackendStateV, ms: Seq<MailboxV>) -> BackendStateV {
    BackendStateV {
        mailboxes: ms,
        cache: match b.cache {
            Some(c) => Some(CacheV { mailboxes: Some(ms), ..c }),
            None => None,
        },
        ..b
    }
}

/// The mailboxes that the cache knows, if it knows any.
pub open spec fn known_mailboxes(b: BackendStateV) -> Option<Seq<MailboxV>> {
    match b.cache {
        Some(c) => match c.mailboxes {
            Some(ms) => if ms.len() > 0 {
                Some(ms)
            } else {
                None
            },
            None => None,
        },
        None => None,
    }
}

/// The response once a mailbox has been made or removed, or has not.
pub open spec fn change_response(cmd: BackendCommandV, result: Result<(), Seq<char>>) -> TurnV {
    match cmd {
        BackendCommandV::CreateMailbox { name } => TurnV::Say {
            task: None,
            response: BackendResponseV::MailboxCreated { name, result },
        },
        BackendCommandV::DeleteMailbox { name, .. } => TurnV::Say {
            task: None,
            response: BackendResponseV::MailboxDeleted { name, result },
        },
        _ => TurnV::Finish,
    }
}

/// How a command is begun without a server: the change that it asks for is put
/// into its notation and stored first, if there is a cache to keep it.
pub open spec fn offline_start(b: BackendStateV, cmd: BackendCommandV) -> (BackendStateV, TurnV) {
    match operation_of(cmd) {
        Some(op) => if b.cache is Some {
            (
                b,
                TurnV::Call {
                    task: TaskV::Command(CommandTaskV::Offline { cmd }),
                    request: RequestV::Encode { op },
                },
            )
        } else {
            offline_finish(b, cmd, Err(Seq::empty()))
        },
        None => offline_finish(b, cmd, Err(Seq::empty())),
    }
}

/// How a command goes on without a server once its change has been put into its
/// notation.
pub open spec fn offline_encoded(
    b: BackendStateV,
    cmd: BackendCommandV,
    r: Result<Seq<u8>, Seq<char>>,
) -> (BackendStateV, TurnV) {
    match (b.cache, r) {
        (Some(c), Ok(payload)) => (
            b,
            TurnV::Call {
                task: TaskV::Command(CommandTaskV::Storing { cmd, payload }),
                request: RequestV::Store { seq: next_seq(c.op_queue), payload },
            },
        ),
        (_, Err(e)) => offline_finish(b, cmd, Err("serialize queue op: "@ + e)),
        (None, Ok(payload)) => offline_finish(b, cmd, Ok(payload)),
    }
}

/// How a command is finished without a server.
pub open spec fn offline_finish(
    b: BackendStateV,
    cmd: BackendCommandV,
    payload: Result<Seq<u8>, Seq<char>>,
) -> (BackendStateV, TurnV) {
    let (cache, mailboxes, response) = offline_outcome(cmd, b.cache, b.mailboxes, payload);
    (
        BackendStateV { cache, mailboxes, ..b },
        match response {
            Some(response) => TurnV::Say { task: None, response },
            None => TurnV::Finish,
        },
    )
}

/// How a command is begun with a server.
pub open spec fn online_start(b: BackendStateV, cmd: BackendCommandV) -> (BackendStateV, TurnV) {
    match cmd {
        BackendCommandV::FetchMailboxes { origin } => {
            let known = known_mailboxes(b);
            if !begins(origin, "cli"@) && known is Some {
                (
                    BackendStateV { mailboxes: known->0, ..b },
                    TurnV::Say {
                        task: Some(TaskV::Command(CommandTaskV::Fetch)),
                        response: BackendResponseV::Mailboxes(Ok(known->0)),
                    },
                )
            } else {
                (
                    b,
                    TurnV::Call {
                        task: TaskV::Command(CommandTaskV::Mailboxes),
                        request: RequestV::GetMailboxes,
                    },
                )
            }
        },
        BackendCommandV::CreateMailbox { name } => (
            b,
            TurnV::Call {
                task: TaskV::Command(CommandTaskV::Change { cmd }),
                request: RequestV::CreateMailbox { name },
            },
        ),
        BackendCommandV::DeleteMailbox { id, .. } => (
            b,
            TurnV::Call {
                task: TaskV::Command(CommandTaskV::Change { cmd }),
                request: RequestV::DeleteMailbox { id },
            },
        ),
        BackendCommandV::QueryEmails { .. } => (
            b,
            match cached_first(b, cmd) {
                Some(response) => TurnV::Say {
                    task: Some(TaskV::Command(CommandTaskV::PageStart { cmd })),
                    response,
                },
                None => page_request(cmd),
            },
        ),
        BackendCommandV::QueryThreadEmails { thread_id } => (
            b,
            TurnV::Call {
                task: TaskV::Command(CommandTaskV::Thread { thread_id }),
                request: RequestV::QueryThreadEmails { thread_id },
            },
        ),
        BackendCommandV::GetEmail { id } => {
            let known = match b.cache {
                Some(c) => lookup(c.emails, id),
                None => None,
            };
            (
                b,
                match known {
                    Some(e) => TurnV::Say {
                        task: None,
                        response: BackendResponseV::EmailBody { id, result: Ok(e) },
                    },
                    None => TurnV::Call {
                        task: TaskV::Command(CommandTaskV::Email { id }),
                        request: RequestV::GetEmail { id },
                    },
                },
            )
        },
        BackendCommandV::GetEmailForReply { id } => (
            b,
            TurnV::Call {
                task: TaskV::Command(CommandTaskV::ForReply { id }),
                request: RequestV::GetEmailForReply { id },
            },
        ),
        BackendCommandV::MarkMailboxRead { mailbox_id, .. } => (
            b,
            TurnV::Spawn {
                task: TaskV::Command(CommandTaskV::MailboxIds { cmd }),
                child: TaskV::Ids(IdsTaskV::Start { mailbox_id }),
            },
        ),
        BackendCommandV::GetEmailRawHeaders { id } => (
            b,
            TurnV::Call {
                task: TaskV::Command(CommandTaskV::Raw { id }),
                request: RequestV::GetEmailRaw { id },
            },
        ),
        BackendCommandV::DownloadAttachment { blob_id, name, content_type } => (
            b,
            TurnV::Call {
                task: TaskV::Command(CommandTaskV::Download { name }),
                request: RequestV::Download { blob_id, name, content_type },
            },
        ),
        BackendCommandV::PreviewRetentionExpiry { policies } => (
            b,
            TurnV::Spawn {
                task: TaskV::Command(CommandTaskV::ExpirePreview),
                child: TaskV::Expire(ExpireTaskV::Start { policies }),
            },
        ),
        BackendCommandV::ExecuteRetentionExpiry { policies } => (
            b,
            TurnV::Spawn {
                task: TaskV::Command(CommandTaskV::Expire),
                child: TaskV::Expire(ExpireTaskV::Start { policies }),
            },
        ),
        BackendCommandV::PreviewRulesForMailbox { mailbox_id, mailbox_name, .. } => (
            b,
            TurnV::Spawn {
                task: TaskV::Command(CommandTaskV::DryRun { mailbox_id, mailbox_name }),
                child: TaskV::Preview(PreviewTaskV::Start { mailbox_id }),
            },
        ),
        BackendCommandV::RunRulesForMailbox { mailbox_id, mailbox_name, .. } => (
            b,
            TurnV::Spawn {
                task: TaskV::Command(CommandTaskV::Rules { mailbox_id, mailbox_name }),
                child: TaskV::Rules(RulesTaskV::Start { mailbox_id }),
            },
        ),
        _ => (
            b,
            match operation_of(cmd) {
                Some(op) => TurnV::Spawn {
                    task: TaskV::Command(CommandTaskV::Mutation { cmd, updated: 0 }),
                    child: TaskV::Mutate(MutateTaskV::Start { op }),
                },
                None => TurnV::Finish,
            },
        ),
    }
}

/// A message that was asked for, or why there is none.
pub open spec fn found_email(r: Result<Option<EmailV>, Seq<char>>) -> Result<EmailV, Seq<char>> {
    match r {
        Ok(Some(e)) => Ok(e),
        Ok(None) => Err("Email not found"@),
        Err(e) => Err(e),
    }
}

/// The headers of a message that was asked for, or why there are none.
pub open spec fn found_headers(r: Result<Option<Seq<char>>, Seq<char>>) -> Result<
    Seq<char>,
    Seq<char>,
> {
    match r {
        Ok(Some(raw)) => Ok(head_and_body(raw).0),
        Ok(None) => Err("Email not found"@),
        Err(e) => Err(e),
    }
}

/// The next message that retention lets go is destroyed; after the last one the
/// console is told how many were.
pub open spec fn expiring_go(
    ops: Seq<QueuedMutationV>,
    next: usize,
    deleted: usize,
    failed: Seq<Seq<char>>,
) -> TurnV {
    if next < ops.len() {
        TurnV::Spawn {
            task: TaskV::Command(
                CommandTaskV::Expiring { ops, next: (next + 1) as usize, deleted, failed },
            ),
            child: TaskV::Mutate(MutateTaskV::Start { op: ops[next as int] }),
        }
    } else {
        TurnV::Say {
            task: None,
            response: BackendResponseV::RetentionExecuted {
                result: Ok(RetentionExecutionResultV { deleted, failed_batches: failed }),
            },
        }
    }
}

/// One step of answering a command.
pub open spec fn command_next(
    b: BackendStateV,
    env: BackendEnvV,
    t: CommandTaskV,
    ev: EventV,
) -> (BackendStateV, TurnV) {
    match (t, ev) {
        (CommandTaskV::Start { cmd }, _) => if b.offline {
            offline_start(b, cmd)
        } else {
            online_start(b, cmd)
        },
        (CommandTaskV::Offline { cmd }, EventV::Reply(ReplyV::Payload(r))) => offline_encoded(
            b,
            cmd,
            r,
        ),
        (CommandTaskV::Storing { cmd, payload }, EventV::Reply(ReplyV::Done(r))) => offline_finish(
            b,
            cmd,
            match r {
                Ok(_) => Ok(payload),
                Err(e) => Err(e),
            },
        ),
        (CommandTaskV::Fetch, _) => (
            b,
            TurnV::Call {
                task: TaskV::Command(CommandTaskV::Mailboxes),
                request: RequestV::GetMailboxes,
            },
        ),
        (CommandTaskV::Mailboxes, EventV::Reply(ReplyV::Mailboxes(r))) => (
            match r {
                Ok(ms) => mailboxes_kept(b, ms),
                Err(_) => b,
            },
            TurnV::Say { task: None, response: BackendResponseV::Mailboxes(r) },
        ),
        (CommandTaskV::Change { cmd }, EventV::Reply(ReplyV::Done(Ok(_)))) => (
            b,
            TurnV::Call {
                task: TaskV::Command(CommandTaskV::Changed { cmd }),
                request: RequestV::GetMailboxes,
            },
        ),
        (CommandTaskV::Change { cmd }, EventV::Reply(ReplyV::Done(Err(e)))) => (
            b,
            change_response(cmd, Err(e)),
        ),
        (CommandTaskV::Changed { cmd }, EventV::Reply(ReplyV::Mailboxes(r))) => (
            match r {
                Ok(ms) => mailboxes_kept(b, ms),
                Err(_) => b,
            },
            change_response(cmd, Ok(())),
        ),
        (CommandTaskV::PageStart { cmd }, _) => (b, page_request(cmd)),
        (CommandTaskV::Page { query }, EventV::Reply(ReplyV::Page(Ok(page)))) => (
            b,
            TurnV::Spawn {
                task: TaskV::Command(CommandTaskV::Emails { query, page }),
                child: fetch_task(page.ids, env.custom_headers, false),
            },
        ),
        (CommandTaskV::Page { query }, EventV::Reply(ReplyV::Page(Err(e)))) => (
            b,
            query_failed(query, e),
        ),
        (
            CommandTaskV::Emails { query, page },
            EventV::Returned(OutcomeV::Emails(Ok(emails))),
        ) => page_fetched(b, env, query, page, emails),
        (CommandTaskV::Emails { query, .. }, EventV::Returned(OutcomeV::Emails(Err(e)))) => (
            b,
            query_failed(query, e),
        ),
        (
            CommandTaskV::QueryRules { query, page, emails, ops, next },
            EventV::Returned(OutcomeV::Unit(_)),
        ) => query_rules_go(b, query, page, emails, ops, next),
        (
            CommandTaskV::Threads { query, page, emails },
            EventV::Reply(ReplyV::Threads(Ok(threads))),
        ) => (
            b,
            TurnV::Call {
                task: TaskV::Command(CommandTaskV::Keywords { query, page, emails, threads }),
                request: RequestV::GetKeywords {
                    ids: members_upto(threads, threads.len() as int),
                },
            },
        ),
        (
            CommandTaskV::Threads { query, page, emails },
            EventV::Reply(ReplyV::Threads(Err(_))),
        ) => (b, page_response(query, page, emails, Seq::empty())),
        (
            CommandTaskV::Keywords { query, page, emails, threads },
            EventV::Reply(ReplyV::Emails(r)),
        ) => (
            b,
            page_response(
                query,
                page,
                emails,
                thread_counts_upto(
                    threads,
                    match r {
                        Ok(known) => known,
                        Err(_) => Seq::empty(),
                    },
                    query.mailbox_id,
                    threads.len() as int,
                ),
            ),
        ),
        (CommandTaskV::Thread { thread_id }, EventV::Reply(ReplyV::Emails(emails))) => (
            b,
            TurnV::Say {
                task: None,
                response: BackendResponseV::ThreadEmails { thread_id, emails },
            },
        ),
        (CommandTaskV::Email { id }, EventV::Reply(ReplyV::Email(r))) => (
            match (b.cache, r) {
                (Some(c), Ok(Some(e))) => BackendStateV {
                    cache: Some(CacheV { emails: with_entry(c.emails, e.id, e), ..c }),
                    ..b
                },
                _ => b,
            },
            TurnV::Say {
                task: None,
                response: BackendResponseV::EmailBody { id, result: found_email(r) },
            },
        ),
        (CommandTaskV::ForReply { id }, EventV::Reply(ReplyV::Email(r))) => (
            b,
            TurnV::Say {
                task: None,
                response: BackendResponseV::EmailForReply { id, result: found_email(r) },
            },
        ),
        (CommandTaskV::Raw { id }, EventV::Reply(ReplyV::Raw(r))) => (
            b,
            TurnV::Say {
                task: None,
                response: BackendResponseV::EmailRawHeaders { id, result: found_headers(r) },
            },
        ),
        (CommandTaskV::Mutation { cmd, updated }, EventV::Returned(OutcomeV::Unit(r))) => (
            b,
            match mutation_response(cmd, r, updated) {
                Some(response) => TurnV::Say { task: None, response },
                None => TurnV::Finish,
            },
        ),
        (CommandTaskV::MailboxIds { cmd }, EventV::Returned(OutcomeV::Ids(r))) => (
            b,
            match operation_of(cmd) {
                Some(op) => TurnV::Spawn {
                    task: TaskV::Command(
                        CommandTaskV::Mutation {
                            cmd,
                            updated: match r {
                                Ok(ids) => ids.len() as usize,
                                Err(_) => 0,
                            },
                        },
                    ),
                    child: TaskV::Mutate(MutateTaskV::Start { op }),
                },
                None => TurnV::Finish,
            },
        ),
        (CommandTaskV::Download { name }, EventV::Reply(ReplyV::Saved(result))) => (
            b,
            TurnV::Say {
                task: None,
                response: BackendResponseV::AttachmentDownloaded { name, result },
            },
        ),
        (CommandTaskV::ExpirePreview, EventV::Returned(OutcomeV::Candidates(r))) => (
            b,
            TurnV::Say {
                task: None,
                response: BackendResponseV::RetentionPreview {
                    result: match r {
                        Ok(candidates) => Ok(RetentionPreviewResultV { candidates }),
                        Err(e) => Err(e),
                    },
                },
            },
        ),
        (CommandTaskV::Expire, EventV::Returned(OutcomeV::Candidates(Ok(cs)))) => (
            BackendStateV { next_op_id: id_after(b.next_op_id, cs.len() as int), ..b },
            expiring_go(
                retention_mutations_upto(cs, b.next_op_id, cs.len() as int),
                0,
                0,
                Seq::empty(),
            ),
        ),
        (CommandTaskV::Expire, EventV::Returned(OutcomeV::Candidates(Err(e)))) => (
            b,
            TurnV::Say {
                task: None,
                response: BackendResponseV::RetentionExecuted { result: Err(e) },
            },
        ),
        (
            CommandTaskV::Expiring { ops, next, deleted, failed },
            EventV::Returned(OutcomeV::Unit(Ok(_))),
        ) => (b, expiring_go(ops, next, capped(deleted + 1), failed)),
        (
            CommandTaskV::Expiring { ops, next, deleted, failed },
            EventV::Returned(OutcomeV::Unit(Err(e))),
        ) => (b, expiring_go(ops, next, deleted, failed.push(e))),
        (
            CommandTaskV::DryRun { mailbox_id, mailbox_name },
            EventV::Returned(OutcomeV::DryRun(result)),
        ) => (
            b,
            TurnV::Say {
                task: None,
                response: BackendResponseV::RulesDryRun { mailbox_id, mailbox_name, result },
            },
        ),
        (
            CommandTaskV::Rules { mailbox_id, mailbox_name },
            EventV::Returned(OutcomeV::RulesRun(result)),
        ) => (
            b,
            TurnV::Say {
                task: None,
                response: BackendResponseV::RulesRun { mailbox_id, mailbox_name, result },
            },
        ),
        _ => (b, TurnV::Finish),
    }
}

fn keep_mailboxes(b: &mut BackendState, ms: &Vec<Mailbox>)
    requires
        state_ok(old(b).deep_view()),
    ensures
        final(b).deep_view() == mailboxes_kept(old(b).deep_view(), ms.deep_view()),
        state_ok(final(b).deep_view()),
{
    b.mailboxes = ms.dup();
    match &mut b.cache {
        Some(c) => {
            c.put_mailboxes(ms.as_slice());
        },
        None => {},
    }
}

fn find_known_mailboxes(b: &BackendState) -> (r: Option<Vec<Mailbox>>)
    ensures
        r.deep_view() == known_mailboxes(b.deep_view()),
{
    match &b.cache {
        Some(c) => match c.get_mailboxes() {
            Some(ms) => {
                if ms.len() > 0 {
                    Some(ms)
                } else {
                    None
                }
            },
            None => None,
        },
        None => None,
    }
}

fn respond_to_change(cmd: BackendCommand, result: Result<(), String>) -> (r: Turn)
    ensures
        r.deep_view() == change_response(cmd.deep_view(), result_view(result)),
{
    match cmd {
        BackendCommand::CreateMailbox { name } => Turn::Say {
            task: None,
            response: BackendResponse::MailboxCreated { name, result },
        },
        BackendCommand::DeleteMailbox { name, .. } => Turn::Say {
            task: None,
            response: BackendResponse::MailboxDeleted { name, result },
        },
        _ => Turn::Finish,
    }
}

fn finish_offline(
    b: &mut BackendState,
    cmd: BackendCommand,
    payload: Result<Vec<u8>, String>,
) -> (r: Turn)
    requires
        state_ok(old(b).deep_view()),
    ensures
        (final(b).deep_view(), r.deep_view()) == offline_finish(
            old(b).deep_view(),
            cmd.deep_view(),
            result_view(payload),
        ),
        state_ok(final(b).deep_view()),
{
    match handle_offline_command(&cmd, &mut b.cache, &mut b.mailboxes, &payload) {
        Some(response) => Turn::Say { task: None, response },
        None => Turn::Finish,
    }
}

fn encoded_offline(
    b: &mut BackendState,
    cmd: BackendCommand,
    r: Result<Vec<u8>, String>,
) -> (o: Turn)
    requires
        state_ok(old(b).deep_view()),
    ensures
        (final(b).deep_view(), o.deep_view()) == offline_encoded(
            old(b).deep_view(),
            cmd.deep_view(),
            result_view(r),
        ),
        state_ok(final(b).deep_view()),
{
    match r {
        Ok(payload) => {
            match &b.cache {
                Some(c) => {
                    let seq: u64 = c.next_number();
                    let copy = copy_bytes(&payload);
                    return Turn::Call {
                        task: Task::Command(CommandTask::Storing { cmd, payload }),
                        request: Request::Store { seq, payload: copy },
                    };
                },
                None => {},
            }
            finish_offline(b, cmd, Ok(payload))
        },
        Err(e) => {
            let mut m = "serialize queue op: ".to_owned();
            m.append(e.as_str());
            finish_offline(b, cmd, Err(m))
        },
    }
}

fn start_offline(b: &mut BackendState, cmd: BackendCommand) -> (r: Turn)
    requires
        state_ok(old(b).deep_view()),
    ensures
        (final(b).deep_view(), r.deep_view()) == offline_start(
            old(b).deep_view(),
            cmd.deep_view(),
        ),
        state_ok(final(b).deep_view()),
{
    match queued_operation(&cmd) {
        Some(op) => {
            if b.cache.is_some() {
                return Turn::Call {
                    task: Task::Command(CommandTask::Offline { cmd }),
                    request: Request::Encode { op },
                };
            }
        },
        None => {},
    }
    finish_offline(b, cmd, Err(String::new()))
}

fn start_online(b: &mut BackendState, cmd: BackendCommand) -> (r: Turn)
    requires
        state_ok(old(b).deep_view()),
    ensures
        (final(b).deep_view(), r.deep_view()) == online_start(old(b).deep_view(), cmd.deep_view()),
        state_ok(final(b).deep_view()),
{
    match &cmd {
        BackendCommand::FetchMailboxes { origin } => {
            if !starts_with(origin.as_str(), "cli") {
                match find_known_mailboxes(b) {
                    Some(ms) => {
                        b.mailboxes = ms.dup();
                        return Turn::Say {
                            task: Some(Task::Command(CommandTask::Fetch)),
                            response: BackendResponse::Mailboxes(Ok(ms)),
                        };
                    },
                    None => {},
                }
            }
            Turn::Call {
                task: Task::Command(CommandTask::Mailboxes),
                request: Request::GetMailboxes,
            }
        },
        BackendCommand::CreateMailbox { name } => {
            let request = Request::CreateMailbox { name: name.clone() };
            Turn::Call { task: Task::Command(CommandTask::Change { cmd }), request }
        },
        BackendCommand::DeleteMailbox { id, .. } => {
            let request = Request::DeleteMailbox { id: id.clone() };
            Turn::Call { task: Task::Command(CommandTask::Change { cmd }), request }
        },
        BackendCommand::QueryEmails { .. } => match find_cached_first(b, &cmd) {
            Some(response) => Turn::Say {
                task: Some(Task::Command(CommandTask::PageStart { cmd })),
                response,
            },
            None => ask_for_query(&cmd),
        },
        BackendCommand::QueryThreadEmails { thread_id } => Turn::Call {
            task: Task::Command(CommandTask::Thread { thread_id: thread_id.clone() }),
            request: Request::QueryThreadEmails { thread_id: thread_id.clone() },
        },
        BackendCommand::GetEmail { id } => {
            let known = match &b.cache {
                Some(c) => c.get_email(id.as_str()),
                None => None,
            };
            match known {
                Some(e) => Turn::Say {
                    task: None,
                    response: BackendResponse::EmailBody { id: id.clone(), result: Ok(e) },
                },
                None => Turn::Call {
                    task: Task::Command(CommandTask::Email { id: id.clone() }),
                    request: Request::GetEmail { id: id.clone() },
                },
            }
        },
        BackendCommand::GetEmailForReply { id } => Turn::Call {
            task: Task::Command(CommandTask::ForReply { id: id.clone() }),
            request: Request::GetEmailForReply { id: id.clone() },
        },
        BackendCommand::MarkMailboxRead { mailbox_id, .. } => {
            let mailbox_id = mailbox_id.clone();
            Turn::Spawn {
                task: Task::Command(CommandTask::MailboxIds { cmd }),
                child: Task::Ids(IdsTask::Start { mailbox_id }),
            }
        },
        BackendCommand::GetEmailRawHeaders { id } => Turn::Call {
            task: Task::Command(CommandTask::Raw { id: id.clone() }),
            request: Request::GetEmailRaw { id: id.clone() },
        },
        BackendCommand::DownloadAttachment { blob_id, name, content_type } => Turn::Call {
            task: Task::Command(CommandTask::Download { name: name.clone() }),
            request: Request::Download {
                blob_id: blob_id.clone(),
                name: name.clone(),
                content_type: content_type.clone(),
            },
        },
        BackendCommand::PreviewRetentionExpiry { policies } => Turn::Spawn {
            task: Task::Command(CommandTask::ExpirePreview),
            child: Task::Expire(ExpireTask::Start { policies: policies.dup() }),
        },
        BackendCommand::ExecuteRetentionExpiry { policies } => Turn::Spawn {
            task: Task::Command(CommandTask::Expire),
            child: Task::Expire(ExpireTask::Start { policies: policies.dup() }),
        },
        BackendCommand::PreviewRulesForMailbox { mailbox_id, mailbox_name, .. } => Turn::Spawn {
            task: Task::Command(
                CommandTask::DryRun {
                    mailbox_id: mailbox_id.clone(),
                    mailbox_name: mailbox_name.clone(),
                },
            ),
            child: Task::Preview(PreviewTask::Start { mailbox_id: mailbox_id.clone() }),
        },
        BackendCommand::RunRulesForMailbox { mailbox_id, mailbox_name, .. } => Turn::Spawn {
            task: Task::Command(
                CommandTask::Rules {
                    mailbox_id: mailbox_id.clone(),
                    mailbox_name: mailbox_name.clone(),
                },
            ),
            child: Task::Rules(RulesTask::Start { mailbox_id: mailbox_id.clone() }),
        },
        _ => match queued_operation(&cmd) {
            Some(op) => Turn::Spawn {
                task: Task::Command(CommandTask::Mutation { cmd, updated: 0 }),
                child: Task::Mutate(MutateTask::Start { op }),
            },
            None => Turn::Finish,
        },
    }
}

fn go_on_destroying(
    ops: Vec<QueuedMutation>,
    next: usize,
    deleted: usize,
    failed: Vec<String>,
) -> (r: Turn)
    ensures
        r.deep_view() == expiring_go(ops.deep_view(), next, deleted, failed.deep_view()),
{
    if next < ops.len() {
        let op = at(ops.as_slice(), next).dup();
        Turn::Spawn {
            task: Task::Command(CommandTask::Expiring { ops, next: next + 1, deleted, failed }),
            child: Task::Mutate(MutateTask::Start { op }),
        }
    } else {
        Turn::Say {
            task: None,
            response: BackendResponse::RetentionExecuted {
                result: Ok(RetentionExecutionResult { deleted, failed_batches: failed }),
            },
        }
    }
}

fn settle_email(r: Result<Option<Email>, String>) -> (o: Result<Email, String>)
    ensures
        result_view(o) == found_email(result_view(r)),
{
    match r {
        Ok(Some(e)) => Ok(e),
        Ok(None) => Err("Email not found".to_owned()),
        Err(e) => Err(e),
    }
}

fn settle_headers(r: Result<Option<String>, String>) -> (o: Result<String, String>)
    ensures
        result_view(o) == found_headers(result_view(r)),
{
    match r {
        Ok(Some(raw)) => {
            let (head, _) = split_headers_body(raw.as_str());
            Ok(head)
        },
        Ok(None) => Err("Email not found".to_owned()),
        Err(e) => Err(e),
    }
}

fn command_step(b: &mut BackendState, env: &BackendEnv, t: CommandTask, ev: Event) -> (r: Turn)
    requires
        state_ok(old(b).deep_view()),
    ensures
        (final(b).deep_view(), r.deep_view()) == command_next(
            old(b).deep_view(),
            env.deep_view(),
            t.deep_view(),
            ev.deep_view(),
        ),
        state_ok(final(b).deep_view()),
{
    match (t, ev) {
        (CommandTask::Start { cmd }, _) => {
            if b.offline {
                start_offline(b, cmd)
            } else {
                start_online(b, cmd)
            }
        },
        (CommandTask::Offline { cmd }, Event::Reply(Reply::Payload(r))) => encoded_offline(
            b,
            cmd,
            r,
        ),
        (CommandTask::Storing { cmd, payload }, Event::Reply(Reply::Done(r))) => finish_offline(
            b,
            cmd,
            match r {
                Ok(_) => Ok(payload),
                Err(e) => Err(e),
            },
        ),
        (CommandTask::Fetch, _) => Turn::Call {
            task: Task::Command(CommandTask::Mailboxes),
            request: Request::GetMailboxes,
        },
        (CommandTask::Mailboxes, Event::Reply(Reply::Mailboxes(r))) => {
            match &r {
                Ok(ms) => {
                    keep_mailboxes(b, ms);
                },
                Err(_) => {},
            }
            Turn::Say { task: None, response: BackendResponse::Mailboxes(r) }
        },
        (CommandTask::Change { cmd }, Event::Reply(Reply::Done(Ok(_)))) => Turn::Call {
            task: Task::Command(CommandTask::Changed { cmd }),
            request: Request::GetMailboxes,
        },
        (CommandTask::Change { cmd }, Event::Reply(Reply::Done(Err(e)))) => respond_to_change(
            cmd,
            Err(e),
        ),
        (CommandTask::Changed { cmd }, Event::Reply(Reply::Mailboxes(r))) => {
            match &r {
                Ok(ms) => {
                    keep_mailboxes(b, ms);
                },
                Err(_) => {},
            }
            respond_to_change(cmd, Ok(()))
        },
        (CommandTask::PageStart { cmd }, _) => ask_for_query(&cmd),
        (CommandTask::Page { query }, Event::Reply(Reply::Page(Ok(page)))) => {
            let ids = copy_list(&page.ids);
            Turn::Spawn {
                task: Task::Command(CommandTask::Emails { query, page }),
                child: fetch_emails(ids, copy_list(&env.custom_headers), false),
            }
        },
        (CommandTask::Page { query }, Event::Reply(Reply::Page(Err(e)))) => respond_query_failed(
            query,
            e,
        ),
        (
            CommandTask::Emails { query, page },
            Event::Returned(Outcome::Emails(Ok(emails))),
        ) => go_on_with_page(b, env, query, page, emails),
        (
            CommandTask::Emails { query, .. },
            Event::Returned(Outcome::Emails(Err(e))),
        ) => respond_query_failed(query, e),
        (
            CommandTask::QueryRules { query, page, emails, ops, next },
            Event::Returned(Outcome::Unit(_)),
        ) => go_on_with_query_rules(b, query, page, emails, ops, next),
        (
            CommandTask::Threads { query, page, emails },
            Event::Reply(Reply::Threads(Ok(threads))),
        ) => {
            let ids = collect_members(&threads);
            Turn::Call {
                task: Task::Command(CommandTask::Keywords { query, page, emails, threads }),
                request: Request::GetKeywords { ids },
            }
        },
        (
            CommandTask::Threads { query, page, emails },
            Event::Reply(Reply::Threads(Err(_))),
        ) => respond_with_page(query, page, emails, StrMap::new()),
        (
            CommandTask::Keywords { query, page, emails, threads },
            Event::Reply(Reply::Emails(r)),
        ) => {
            let known = match r {
                Ok(known) => known,
                Err(_) => no_items(),
            };
            let counts = count_threads(&threads, &known, query.mailbox_id.as_str());
            respond_with_page(query, page, emails, counts)
        },
        (CommandTask::Thread { thread_id }, Event::Reply(Reply::Emails(emails))) => Turn::Say {
            task: None,
            response: BackendResponse::ThreadEmails { thread_id, emails },
        },
        (CommandTask::Email { id }, Event::Reply(Reply::Email(r))) => {
            match &r {
                Ok(Some(e)) => match &mut b.cache {
                    Some(c) => {
                        c.emails.insert(e.id.clone(), e.dup());
                    },
                    None => {},
                },
                _ => {},
            }
            Turn::Say {
                task: None,
                response: BackendResponse::EmailBody { id, result: settle_email(r) },
            }
        },
        (CommandTask::ForReply { id }, Event::Reply(Reply::Email(r))) => Turn::Say {
            task: None,
            response: BackendResponse::EmailForReply { id, result: settle_email(r) },
        },
        (CommandTask::Raw { id }, Event::Reply(Reply::Raw(r))) => Turn::Say {
            task: None,
            response: BackendResponse::EmailRawHeaders { id, result: settle_headers(r) },
        },
        (CommandTask::Mutation { cmd, updated }, Event::Returned(Outcome::Unit(r))) => {
            match respond_to_mutation(&cmd, r, updated) {
                Some(response) => Turn::Say { task: None, response },
                None => Turn::Finish,
            }
        },
        (CommandTask::MailboxIds { cmd }, Event::Returned(Outcome::Ids(r))) => {
            let updated: usize = match r {
                Ok(ids) => ids.len(),
                Err(_) => 0,
            };
            match queued_operation(&cmd) {
                Some(op) => Turn::Spawn {
                    task: Task::Command(CommandTask::Mutation { cmd, updated }),
                    child: Task::Mutate(MutateTask::Start { op }),
                },
                None => Turn::Finish,
            }
        },
        (CommandTask::Download { name }, Event::Reply(Reply::Saved(result))) => Turn::Say {
            task: None,
            response: BackendResponse::AttachmentDownloaded { name, result },
        },
        (CommandTask::ExpirePreview, Event::Returned(Outcome::Candidates(r))) => {
            let result = match r {
                Ok(candidates) => Ok(RetentionPreviewResult { candidates }),
                Err(e) => Err(e),
            };
            Turn::Say { task: None, response: BackendResponse::RetentionPreview { result } }
        },
        (CommandTask::Expire, Event::Returned(Outcome::Candidates(Ok(cs)))) => {
            let ops = queued_mutations_for_retention(cs.as_slice(), &mut b.next_op_id);
            go_on_destroying(ops, 0, 0, no_items())
        },
        (CommandTask::Expire, Event::Returned(Outcome::Candidates(Err(e)))) => Turn::Say {
            task: None,
            response: BackendResponse::RetentionExecuted { result: Err(e) },
        },
        (
            CommandTask::Expiring { ops, next, deleted, failed },
            Event::Returned(Outcome::Unit(Ok(_))),
        ) => go_on_destroying(ops, next, deleted.saturating_add(1), failed),
        (
            CommandTask::Expiring { ops, next, deleted, failed },
            Event::Returned(Outcome::Unit(Err(e))),
        ) => {
            let mut failed = failed;
            put(&mut failed, e);
            go_on_destroying(ops, next, deleted, failed)
        },
        (
            CommandTask::DryRun { mailbox_id, mailbox_name },
            Event::Returned(Outcome::DryRun(result)),
        ) => Turn::Say {
            task: None,
            response: BackendResponse::RulesDryRun { mailbox_id, mailbox_name, result },
        },
        (
            CommandTask::Rules { mailbox_id, mailbox_name },
            Event::Returned(Outcome::RulesRun(result)),
        ) => Turn::Say {
            task: None,
            response: BackendResponse::RulesRun { mailbox_id, mailbox_name, result },
        },
        _ => Turn::Finish,
    }
}

// ---------------------------------------------------------------------------
// Changes from an earlier time
// ---------------------------------------------------------------------------

/// The state without a queued change.
pub open spec fn without_op(b: BackendStateV, seq: u64) -> BackendStateV {
    BackendStateV {
        cache: match b.cache {
            Some(c) => Some(
                CacheV {
                    op_queue: unqueued_upto(c.op_queue, seq, c.op_queue.len() as int),
                    ..c
                },
            ),
            None => None,
        },
        ..b
    }
}

/// The next queued change is read, if one is left.
pub open spec fn replay_go(queue: Seq<(u64, Seq<u8>)>, next: usize) -> TurnV {
    if next < queue.len() {
        TurnV::Call {
            task: TaskV::Replay(ReplayTaskV::Decoding { queue, next }),
            request: RequestV::Decode { payload: queue[next as int].1 },
        }
    } else {
        TurnV::Finish
    }
}

/// One step of carrying out queued changes: one that cannot be read is dropped,
/// one that is done with leaves the queue, and the first that fails ends the work
/// and stays with all behind it.
pub open spec fn replay_next(b: BackendStateV, t: ReplayTaskV, ev: EventV) -> (
    BackendStateV,
    TurnV,
) {
    match (t, ev) {
        (ReplayTaskV::Next { queue, next }, _) => (b, replay_go(queue, next)),
        (ReplayTaskV::Decoding { queue, next }, EventV::Reply(ReplyV::Decoded(r))) => if next
            < queue.len() {
            match r {
                None => (without_op(b, queue[next as int].0), replay_go(queue, (next + 1) as usize)),
                Some(op) => (
                    b,
                    TurnV::Spawn {
                        task: TaskV::Replay(ReplayTaskV::Sent { queue, next, op }),
                        child: TaskV::Remote(RemoteTaskV::Start { op }),
                    },
                ),
            }
        } else {
            (b, TurnV::Finish)
        },
        (ReplayTaskV::Sent { queue, next, op }, EventV::Returned(OutcomeV::Unit(r))) => if next
            < queue.len() && done_with(op, r) {
            (without_op(b, queue[next as int].0), replay_go(queue, (next + 1) as usize))
        } else {
            (b, TurnV::Finish)
        },
        _ => (b, TurnV::Finish),
    }
}

fn drop_op(b: &mut BackendState, seq: u64)
    requires
        state_ok(old(b).deep_view()),
    ensures
        final(b).deep_view() == without_op(old(b).deep_view(), seq),
        state_ok(final(b).deep_view()),
{
    match &mut b.cache {
        Some(c) => {
            proof {
                let q = c.deep_view().op_queue;
                lemma_unqueued(q, seq, q.len() as int);
            }
            let _ = c.remove_queued_operation(seq);
        },
        None => {},
    }
}

fn go_on_replaying(queue: Vec<(u64, Vec<u8>)>, next: usize) -> (r: Turn)
    ensures
        r.deep_view() == replay_go(queue.deep_view(), next),
{
    if next < queue.len() {
        let payload = at(queue.as_slice(), next).1.dup();
        Turn::Call {
            task: Task::Replay(ReplayTask::Decoding { queue, next }),
            request: Request::Decode { payload },
        }
    } else {
        Turn::Finish
    }
}

fn replay_step(b: &mut BackendState, t: ReplayTask, ev: Event) -> (r: Turn)
    requires
        state_ok(old(b).deep_view()),
    ensures
        (final(b).deep_view(), r.deep_view()) == replay_next(
            old(b).deep_view(),
            t.deep_view(),
            ev.deep_view(),
        ),
        state_ok(final(b).deep_view()),
{
    match (t, ev) {
        (ReplayTask::Next { queue, next }, _) => go_on_replaying(queue, next),
        (ReplayTask::Decoding { queue, next }, Event::Reply(Reply::Decoded(r))) => {
            if next >= queue.len() {
                return Turn::Finish;
            }
            match r {
                None => {
                    let seq: u64 = at(queue.as_slice(), next).0;
                    drop_op(b, seq);
                    go_on_replaying(queue, next + 1)
                },
                Some(op) => {
                    let copy = op.dup();
                    Turn::Spawn {
                        task: Task::Replay(ReplayTask::Sent { queue, next, op }),
                        child: Task::Remote(RemoteTask::Start { op: copy }),
                    }
                },
            }
        },
        (ReplayTask::Sent { queue, next, op }, Event::Returned(Outcome::Unit(r))) => {
            if next < queue.len() && is_done_with(&op, &r) {
                let seq: u64 = at(queue.as_slice(), next).0;
                drop_op(b, seq);
                go_on_replaying(queue, next + 1)
            } else {
                Turn::Finish
            }
        },
        _ => Turn::Finish,
    }
}

// ---------------------------------------------------------------------------
// The stack
// ---------------------------------------------------------------------------

/// One step of a task.
pub open spec fn task_next(b: BackendStateV, env: BackendEnvV, t: TaskV, ev: EventV) -> (
    BackendStateV,
    TurnV,
) {
    match t {
        TaskV::Ids(t) => (b, ids_next(t, ev)),
        TaskV::Emails(t) => (b, emails_next(t, ev)),
        TaskV::Mutate(t) => mutate_next(b, t, ev),
        TaskV::Remote(t) => remote_next(b, t, ev),
        TaskV::Rules(t) => rules_next(b, env, t, ev),
        TaskV::Preview(t) => (b, preview_next(b, env, t, ev)),
        TaskV::Expire(t) => (b, expire_next(b, t, ev)),
        TaskV::Command(t) => command_next(b, env, t, ev),
        TaskV::Replay(t) => replay_next(b, t, ev),
    }
}

fn task_step(b: &mut BackendState, env: &BackendEnv, t: Task, ev: Event) -> (r: Turn)
    requires
        state_ok(old(b).deep_view()),
    ensures
        (final(b).deep_view(), r.deep_view()) == task_next(
            old(b).deep_view(),
            env.deep_view(),
            t.deep_view(),
            ev.deep_view(),
        ),
        state_ok(final(b).deep_view()),
{
    match t {
        Task::Ids(t) => ids_step(t, ev),
        Task::Emails(t) => emails_step(t, ev),
        Task::Mutate(t) => mutate_step(b, t, ev),
        Task::Remote(t) => remote_step(b, t, ev),
        Task::Rules(t) => rules_step(b, env, t, ev),
        Task::Preview(t) => preview_step(b, env, t, ev),
        Task::Expire(t) => expire_step(b, t, ev),
        Task::Command(t) => command_step(b, env, t, ev),
        Task::Replay(t) => replay_step(b, t, ev),
    }
}

/// What is to be done after a step: the caller asks outside for something, or
/// tells the console something, or lets the work go on, or has no work left.
pub open spec fn stack_next(m: BackendV, env: BackendEnvV, reply: Option<ReplyV>) -> (
    BackendV,
    OutputV,
) {
    if m.stack.len() == 0 {
        (m, OutputV::Idle)
    } else {
        let t = m.stack.last();
        let rest = m.stack.drop_last();
        let ev = match (reply, m.returned) {
            (Some(r), _) => EventV::Reply(r),
            (None, Some(o)) => EventV::Returned(o),
            (None, None) => EventV::Go,
        };
        let (state, turn) = task_next(m.state, env, t, ev);
        match turn {
            TurnV::Call { task, request } => (
                BackendV { state, stack: rest.push(task), returned: None },
                OutputV::Ask(request),
            ),
            TurnV::Spawn { task, child } => (
                BackendV { state, stack: rest.push(task).push(child), returned: None },
                OutputV::Continue,
            ),
            TurnV::Return(o) => (
                BackendV { state, stack: rest, returned: Some(o) },
                OutputV::Continue,
            ),
            TurnV::Say { task, response } => (
                BackendV {
                    state,
                    stack: match task {
                        Some(t) => rest.push(t),
                        None => rest,
                    },
                    returned: None,
                },
                OutputV::Tell(response),
            ),
            TurnV::Finish => (BackendV { state, stack: rest, returned: None }, OutputV::Continue),
        }
    }
}

/// Work on an account that has just begun: the mailboxes are those that the cache knows;
/// with a server, the changes that were queued are carried out first.
pub open spec fn work_on(cache: Option<CacheV>, offline: bool) -> BackendV {
    BackendV {
        state: BackendStateV {
            cache,
            mailboxes: match cache {
                Some(c) => match c.mailboxes {
                    Some(ms) => ms,
                    None => Seq::empty(),
                },
                None => Seq::empty(),
            },
            next_op_id: 1,
            offline,
        },
        stack: match cache {
            Some(c) => if offline {
                Seq::empty()
            } else {
                seq![TaskV::Replay(ReplayTaskV::Next { queue: c.op_queue, next: 0 })]
            },
            None => Seq::empty(),
        },
        returned: None,
    }
}

/// The work after a command is taken up, which goes before all else; one that ends the
/// work is not taken up.
pub open spec fn command_taken(m: BackendV, cmd: BackendCommandV) -> BackendV {
    BackendV {
        stack: if cmd is Shutdown {
            m.stack
        } else {
            m.stack.push(TaskV::Command(CommandTaskV::Start { cmd }))
        },
        returned: None,
        ..m
    }
}

impl Backend {
    /// Work on an account. The mailboxes are those that the cache knows; with a
    /// server, the changes that were queued are carried out first.
    pub fn new(cache: Option<Cache>, offline: bool) -> (r: Backend)
        requires
            cache_ok(cache.deep_view()),
        ensures
            state_ok(r.deep_view().state),
            r.deep_view() == work_on(cache.deep_view(), offline),
    {
        let mut mailboxes: Vec<Mailbox> = no_items();
        let mut stack: Vec<Task> = no_items();
        match &cache {
            Some(c) => {
                match c.get_mailboxes() {
                    Some(ms) => {
                        mailboxes = ms;
                    },
                    None => {},
                }
                if !offline {
                    let queue = c.queued_operations();
                    put(&mut stack, Task::Replay(ReplayTask::Next { queue, next: 0 }));
                    assert(stack.deep_view() =~= seq![
                        TaskV::Replay(
                            ReplayTaskV::Next { queue: c.deep_view().op_queue, next: 0 },
                        ),
                    ]);
                }
            },
            None => {},
        }
        Backend {
            state: BackendState { cache, mailboxes, next_op_id: 1, offline },
            stack,
            returned: None,
        }
    }

    /// Takes up a command; says whether the work goes on.
    pub fn begin(&mut self, cmd: BackendCommand) -> (r: bool)
        ensures
            r == !(cmd is Shutdown),
            final(self).deep_view() == command_taken(old(self).deep_view(), cmd.deep_view()),
    {
        self.returned = None;
        match cmd {
            BackendCommand::Shutdown => false,
            _ => {
                put(&mut self.stack, Task::Command(CommandTask::Start { cmd }));
                true
            },
        }
    }

    /// Goes on by one step, with what has come back from outside if something was
    /// asked for.
    pub fn step(&mut self, env: &BackendEnv, reply: Option<Reply>) -> (r: Output)
        requires
            state_ok(old(self).deep_view().state),
        ensures
            (final(self).deep_view(), r.deep_view()) == stack_next(
                old(self).deep_view(),
                env.deep_view(),
                reply.deep_view(),
            ),
            state_ok(final(self).deep_view().state),
    {
        let ghost before = self.deep_view();
        let n: usize = self.stack.len();
        let t = match self.stack.pop() {
            Some(t) => t,
            None => {
                return Output::Idle;
            },
        };
        proof {
            assert(before.stack[n - 1] == t.deep_view());
            assert(self.stack.deep_view() =~= before.stack.drop_last());
        }
        let ev = match reply {
            Some(r) => Event::Reply(r),
            None => match self.returned.take() {
                Some(o) => Event::Returned(o),
                None => Event::Go,
            },
        };
        self.returned = None;
        match task_step(&mut self.state, env, t, ev) {
            Turn::Call { task, request } => {
                put(&mut self.stack, task);
                Output::Ask(request)
            },
            Turn::Spawn { task, child } => {
                put(&mut self.stack, task);
                put(&mut self.stack, child);
                Output::Continue
            },
            Turn::Return(o) => {
                self.returned = Some(o);
                Output::Continue
            },
            Turn::Say { task, response } => {
                match task {
                    Some(t) => {
                        put(&mut self.stack, t);
                    },
                    None => {},
                }
                Output::Tell(response)
            },
            Turn::Finish => Output::Continue,
        }
    }
}

// ---------------------------------------------------------------------------
// What holds of the work
// ---------------------------------------------------------------------------

/// A change that was queued stays queued until it is done with: while it is sent
/// nothing leaves the queue, and when the server has answered it leaves only if it
/// was carried out or has nothing left to take away.
pub proof fn law_unfinished_change_stays_queued(
    b: BackendStateV,
    op: QueuedMutationV,
    seq: u64,
    r: Result<(), Seq<char>>,
)
    requires
        b.cache is Some,
        !done_with(op, r),
    ensures
        ({
            let ev = EventV::Returned(OutcomeV::Unit(r));
            let t = MutateTaskV::Sent { op, seq: Some(seq) };
            mutate_next(b, t, ev).0.cache->0.op_queue == b.cache->0.op_queue
        }),
{
}

/// A change is stored and queued before it is sent: the bytes that stand for it are
/// asked to be stored under the number that it gets in the queue, and the request goes
/// out only once they are, in a state whose queue ends with it.
pub proof fn law_change_is_queued_before_sent(
    b: BackendStateV,
    op: QueuedMutationV,
    payload: Seq<u8>,
)
    requires
        b.cache is Some,
        queue_ok(b.cache->0.op_queue),
    ensures
        ({
            let seq = next_seq(b.cache->0.op_queue);
            let encoded = EventV::Reply(ReplyV::Payload(Ok(payload)));
            let stored = EventV::Reply(ReplyV::Done(Ok(())));
            let storing = MutateTaskV::Storing { op, payload };
            let (after, turn) = mutate_next(b, storing, stored);
            let q = after.cache->0.op_queue;
            &&& mutate_next(b, MutateTaskV::Encoding { op }, encoded) == (
                b,
                TurnV::Call {
                    task: TaskV::Mutate(storing),
                    request: RequestV::Store { seq, payload },
                },
            )
            &&& turn is Spawn
            &&& q.len() > 0
            &&& q.last() == (seq, payload)
        }),
{
    let c = b.cache->0;
    law_projection_keeps_queue(CacheV { op_queue: queued(c.op_queue, payload), ..c }, op);
}

/// A change that cannot be stored is answered with the error, with a server or
/// without one; it is not sent, and nothing shows it.
pub proof fn law_unstored_change_is_refused(
    b: BackendStateV,
    op: QueuedMutationV,
    cmd: BackendCommandV,
    payload: Seq<u8>,
    e: Seq<char>,
)
    requires
        b.cache is Some,
        operation_of(cmd) is Some,
    ensures
        ({
            let failed = EventV::Reply(ReplyV::Done(Err(e)));
            let online = mutate_next(b, MutateTaskV::Storing { op, payload }, failed);
            let offline = offline_finish(b, cmd, Err(e));
            &&& online == (b, TurnV::Return(OutcomeV::Unit(Err(e))))
            &&& offline.0 == b
            &&& offline.1 is Say
            &&& offline_outcome(cmd, b.cache, b.mailboxes, Err(e)).2 == mutation_response(
                cmd,
                Err(e),
                match cmd {
                    BackendCommandV::MarkMailboxRead { mailbox_id, .. } => known_unread(
                        b.cache,
                        mailbox_id,
                    ) as usize,
                    _ => 0,
                },
            )
        }),
{
}

/// Whether the messages that have been let go are each let go once.
pub open spec fn candidates_ok(x: ExpiryV) -> bool {
    &&& x.seen.no_duplicates()
    &&& x.candidates.map_values(|c: RetentionCandidateV| c.id) == x.seen
}

/// Every message of a page that is older than the policy at hand keeps it is let go,
/// whatever earlier policies said of it; those that were let go before stay let go,
/// nothing else is, and no message is let go twice.
pub proof fn law_expired_messages_are_let_go(x: ExpiryV, emails: Seq<EmailV>, k: int)
    requires
        candidates_ok(x),
        0 <= k <= emails.len(),
    ensures
        ({
            let y = looked_upto(x, emails, k);
            &&& candidates_ok(y)
            &&& x.candidates.is_prefix_of(y.candidates)
            &&& y.today == x.today && y.days == x.days
            &&& forall|j: int|
                0 <= j < k && expired(#[trigger] emails[j], x.today, x.days) ==> y.seen.contains(
                    emails[j].id,
                )
            &&& forall|id: Seq<char>|
                #[trigger] y.seen.contains(id) ==> x.seen.contains(id) || exists|j: int|
                    0 <= j < k && (#[trigger] emails[j]).id == id && expired(
                        emails[j],
                        x.today,
                        x.days,
                    )
        }),
    decreases k,
{
    if k > 0 {
        law_expired_messages_are_let_go(x, emails, k - 1);
        let y = looked_upto(x, emails, k - 1);
        let z = looked_upto(x, emails, k);
        let e = emails[k - 1];
        if expired(e, y.today, y.days) && !y.seen.contains(e.id) {
            let id_of = |c: RetentionCandidateV| c.id;
            assert(z.candidates.map_values(id_of) =~= y.candidates.map_values(id_of).push(e.id));
            assert(z.seen == y.seen.push(e.id));
            assert(z.seen[z.seen.len() - 1] == e.id);
            assert forall|id: Seq<char>| #[trigger] z.seen.contains(id) <==> (y.seen.contains(id)
                || id == e.id) by {
                if y.seen.contains(id) {
                    let i = y.seen.index_of(id);
                    assert(z.seen[i] == id);
                }
            }
        }
    }
}

/// Replaying stops at the first change that fails: it and all behind it stay.
pub proof fn law_replay_stops_at_failure(
    b: BackendStateV,
    queue: Seq<(u64, Seq<u8>)>,
    next: usize,
    op: QueuedMutationV,
    r: Result<(), Seq<char>>,
)
    requires
        !done_with(op, r),
    ensures
        replay_next(
            b,
            ReplayTaskV::Sent { queue, next, op },
            EventV::Returned(OutcomeV::Unit(r)),
        ) == (b, TurnV::Finish),
{
}

proof fn lemma_added_upto(acc: Seq<Seq<char>>, more: Seq<Seq<char>>, k: int)
    requires
        0 <= k <= more.len(),
        acc.no_duplicates(),
    ensures
        added_upto(acc, more, k).no_duplicates(),
        forall|i: int| 0 <= i < acc.len() ==> #[trigger] added_upto(acc, more, k)[i] == acc[i],
        added_upto(acc, more, k).len() >= acc.len(),
        forall|i: int| 0 <= i < k ==> added_upto(acc, more, k).contains(#[trigger] more[i]),
    decreases k,
{
    if k > 0 {
        lemma_added_upto(acc, more, k - 1);
        let before = added_upto(acc, more, k - 1);
        let now = added_upto(acc, more, k);
        assert forall|i: int| 0 <= i < k implies now.contains(#[trigger] more[i]) by {
            if i < k - 1 {
                let j = choose|j: int| 0 <= j < before.len() && before[j] == more[i];
                assert(now[j] == more[i]);
            } else if !before.contains(more[i]) {
                assert(now[now.len() - 1] == more[i]);
            }
        }
    }
}

/// The ids of a mailbox are collected without repetition and without loss: every
/// page only adds ids behind those from before, and all of its own are there.
pub proof fn law_ids_collected_once(ids: Seq<Seq<char>>, page: Seq<Seq<char>>)
    requires
        ids.no_duplicates(),
    ensures
        ({
            let all = added_upto(ids, page, page.len() as int);
            &&& all.no_duplicates()
            &&& all.len() >= ids.len()
            &&& all.subrange(0, ids.len() as int) == ids
            &&& forall|i: int| 0 <= i < page.len() ==> all.contains(#[trigger] page[i])
        }),
{
    lemma_added_upto(ids, page, page.len() as int);
    let all = added_upto(ids, page, page.len() as int);
    assert(all.subrange(0, ids.len() as int) =~= ids);
}

/// Messages that are let go are listed in order; none is lost or added by it, and
/// those that may stand either way keep their order.
pub proof fn law_candidates_in_order(cs: Seq<RetentionCandidateV>)
    ensures
        ({
            let le = |a: RetentionCandidateV, c: RetentionCandidateV| candidate_le(a, c);
            &&& crate::sorting::in_order(sorted(cs, le), le)
            &&& sorted(cs, le).to_multiset() == cs.to_multiset()
            &&& forall|c: RetentionCandidateV| #[trigger]
                crate::sorting::equals_of(sorted(cs, le), c, le) == crate::sorting::equals_of(
                    cs,
                    c,
                    le,
                )
        }),
{
    let le = |a: RetentionCandidateV, c: RetentionCandidateV| candidate_le(a, c);
    crate::sorting::law_text_order();
    crate::sorting::law_text_antisymmetric();
    assert(crate::sorting::total_order(le)) by {
        assert forall|a: RetentionCandidateV, b: RetentionCandidateV|
            #[trigger] le(a, b) || le(b, a) by {}
        assert forall|a: RetentionCandidateV, b: RetentionCandidateV, c: RetentionCandidateV|
            #[trigger] le(a, b) && #[trigger] le(b, c) implies le(a, c) by {
            lemma_candidate_transitive(a, b, c);
        }
    }
    crate::sorting::law_sorted(cs, le);
}

proof fn lemma_candidate_transitive(
    a: RetentionCandidateV,
    b: RetentionCandidateV,
    c: RetentionCandidateV,
)
    requires
        candidate_le(a, b),
        candidate_le(b, c),
    ensures
        candidate_le(a, c),
{
    crate::sorting::law_text_order();
    crate::sorting::law_text_antisymmetric();
}

} // verus!
