//! The work behind the console: commands come in, requests go to the server, the
//! cache is kept, and responses go out.

pub mod dates;
pub mod files;
pub mod offline;
pub mod queue;
pub mod tasks;

use vstd::prelude::*;

use crate::config::{RetentionPolicyConfig, RetentionPolicyConfigV};
use crate::data::{result_view, Dup, StrMap};
use crate::jmap::types::{Email, EmailV, Mailbox, MailboxV};

verus! {

/// What is done to a message.
#[derive(Clone, Copy, Debug, Eq, PartialEq, Structural)]
pub enum EmailMutationAction {
    MarkRead,
    MarkUnread,
    SetFlagged(bool),
    Move,
    Destroy,
}

impl DeepView for EmailMutationAction {
    type V = EmailMutationAction;

    open spec fn deep_view(&self) -> EmailMutationAction {
        *self
    }
}

impl Dup for EmailMutationAction {
    fn dup(&self) -> (r: EmailMutationAction) {
        *self
    }
}

/// What the console asks for.
#[derive(Debug)]
pub enum BackendCommand {
    FetchMailboxes { origin: String },
    CreateMailbox { name: String },
    DeleteMailbox { id: String, name: String },
    QueryEmails {
        origin: String,
        mailbox_id: String,
        page_size: u32,
        position: u32,
        search_query: Option<String>,
        received_after: Option<String>,
        received_before: Option<String>,
    },
    GetEmail { id: String },
    GetEmailForReply { id: String },
    MarkEmailRead { op_id: u64, id: String },
    MarkEmailUnread { op_id: u64, id: String },
    SetEmailFlagged { op_id: u64, id: String, flagged: bool },
    MoveEmail { op_id: u64, id: String, to_mailbox_id: String },
    MoveThread { op_id: u64, thread_id: String, to_mailbox_id: String },
    DestroyEmail { op_id: u64, id: String },
    DestroyThread { op_id: u64, thread_id: String },
    QueryThreadEmails { thread_id: String },
    MarkThreadRead { thread_id: String, email_ids: Vec<String> },
    MarkMailboxRead { mailbox_id: String, mailbox_name: String },
    GetEmailRawHeaders { id: String },
    DownloadAttachment { blob_id: String, name: String, content_type: String },
    PreviewRetentionExpiry { policies: Vec<RetentionPolicyConfig> },
    ExecuteRetentionExpiry { policies: Vec<RetentionPolicyConfig> },
    PreviewRulesForMailbox { origin: String, mailbox_id: String, mailbox_name: String },
    RunRulesForMailbox { origin: String, mailbox_id: String, mailbox_name: String },
    Shutdown,
}

/// The contents of a `BackendCommand`.
pub enum BackendCommandV {
    FetchMailboxes { origin: Seq<char> },
    CreateMailbox { name: Seq<char> },
    DeleteMailbox { id: Seq<char>, name: Seq<char> },
    QueryEmails {
        origin: Seq<char>,
        mailbox_id: Seq<char>,
        page_size: u32,
        position: u32,
        search_query: Option<Seq<char>>,
        received_after: Option<Seq<char>>,
        received_before: Option<Seq<char>>,
    },
    GetEmail { id: Seq<char> },
    GetEmailForReply { id: Seq<char> },
    MarkEmailRead { op_id: u64, id: Seq<char> },
    MarkEmailUnread { op_id: u64, id: Seq<char> },
    SetEmailFlagged { op_id: u64, id: Seq<char>, flagged: bool },
    MoveEmail { op_id: u64, id: Seq<char>, to_mailbox_id: Seq<char> },
    MoveThread { op_id: u64, thread_id: Seq<char>, to_mailbox_id: Seq<char> },
    DestroyEmail { op_id: u64, id: Seq<char> },
    DestroyThread { op_id: u64, thread_id: Seq<char> },
    QueryThreadEmails { thread_id: Seq<char> },
    MarkThreadRead { thread_id: Seq<char>, email_ids: Seq<Seq<char>> },
    MarkMailboxRead { mailbox_id: Seq<char>, mailbox_name: Seq<char> },
    GetEmailRawHeaders { id: Seq<char> },
    DownloadAttachment { blob_id: Seq<char>, name: Seq<char>, content_type: Seq<char> },
    PreviewRetentionExpiry { policies: Seq<RetentionPolicyConfigV> },
    ExecuteRetentionExpiry { policies: Seq<RetentionPolicyConfigV> },
    PreviewRulesForMailbox { origin: Seq<char>, mailbox_id: Seq<char>, mailbox_name: Seq<char> },
    RunRulesForMailbox { origin: Seq<char>, mailbox_id: Seq<char>, mailbox_name: Seq<char> },
    Shutdown,
}

impl DeepView for BackendCommand {
    type V = BackendCommandV;

    open spec fn deep_view(&self) -> BackendCommandV {
        match self {
            BackendCommand::FetchMailboxes { origin } => BackendCommandV::FetchMailboxes {
                origin: origin@,
            },
            BackendCommand::CreateMailbox { name } => BackendCommandV::CreateMailbox {
                name: name@,
            },
            BackendCommand::DeleteMailbox { id, name } => BackendCommandV::DeleteMailbox {
                id: id@,
                name: name@,
            },
            BackendCommand::QueryEmails {
                origin,
                mailbox_id,
                page_size,
                position,
                search_query,
                received_after,
                received_before,
            } => BackendCommandV::QueryEmails {
                origin: origin@,
                mailbox_id: mailbox_id@,
                page_size: *page_size,
                position: *position,
                search_query: search_query.deep_view(),
                received_after: received_after.deep_view(),
                received_before: received_before.deep_view(),
            },
            BackendCommand::GetEmail { id } => BackendCommandV::GetEmail {
                id: id@,
            },
            BackendCommand::GetEmailForReply { id } => BackendCommandV::GetEmailForReply {
                id: id@,
            },
            BackendCommand::MarkEmailRead { op_id, id } => BackendCommandV::MarkEmailRead {
                op_id: *op_id,
                id: id@,
            },
            BackendCommand::MarkEmailUnread { op_id, id } => BackendCommandV::MarkEmailUnread {
                op_id: *op_id,
                id: id@,
            },
            BackendCommand::SetEmailFlagged {
                op_id,
                id,
                flagged,
            } => BackendCommandV::SetEmailFlagged {
                op_id: *op_id,
                id: id@,
                flagged: *flagged,
            },
            BackendCommand::MoveEmail { op_id, id, to_mailbox_id } => BackendCommandV::MoveEmail {
                op_id: *op_id,
                id: id@,
                to_mailbox_id: to_mailbox_id@,
            },
            BackendCommand::MoveThread {
                op_id,
                thread_id,
                to_mailbox_id,
            } => BackendCommandV::MoveThread {
                op_id: *op_id,
                thread_id: thread_id@,
                to_mailbox_id: to_mailbox_id@,
            },
            BackendCommand::DestroyEmail { op_id, id } => BackendCommandV::DestroyEmail {
                op_id: *op_id,
                id: id@,
            },
            BackendCommand::DestroyThread { op_id, thread_id } => BackendCommandV::DestroyThread {
                op_id: *op_id,
                thread_id: thread_id@,
            },
            BackendCommand::QueryThreadEmails { thread_id } => BackendCommandV::QueryThreadEmails {
                thread_id: thread_id@,
            },
            BackendCommand::MarkThreadRead {
                thread_id,
                email_ids,
            } => BackendCommandV::MarkThreadRead {
                thread_id: thread_id@,
                email_ids: email_ids.deep_view(),
            },
            BackendCommand::MarkMailboxRead {
                mailbox_id,
                mailbox_name,
            } => BackendCommandV::MarkMailboxRead {
                mailbox_id: mailbox_id@,
                mailbox_name: mailbox_name@,
            },
            BackendCommand::GetEmailRawHeaders { id } => BackendCommandV::GetEmailRawHeaders {
                id: id@,
            },
            BackendCommand::DownloadAttachment {
                blob_id,
                name,
                content_type,
            } => BackendCommandV::DownloadAttachment {
                blob_id: blob_id@,
                name: name@,
                content_type: content_type@,
            },
            BackendCommand::PreviewRetentionExpiry {
                policies,
            } => BackendCommandV::PreviewRetentionExpiry {
                policies: policies.deep_view(),
            },
            BackendCommand::ExecuteRetentionExpiry {
                policies,
            } => BackendCommandV::ExecuteRetentionExpiry {
                policies: policies.deep_view(),
            },
            BackendCommand::PreviewRulesForMailbox {
                origin,
                mailbox_id,
                mailbox_name,
            } => BackendCommandV::PreviewRulesForMailbox {
                origin: origin@,
                mailbox_id: mailbox_id@,
                mailbox_name: mailbox_name@,
            },
            BackendCommand::RunRulesForMailbox {
                origin,
                mailbox_id,
                mailbox_name,
            } => BackendCommandV::RunRulesForMailbox {
                origin: origin@,
                mailbox_id: mailbox_id@,
                mailbox_name: mailbox_name@,
            },
            BackendCommand::Shutdown => BackendCommandV::Shutdown,
        }
    }
}

impl Dup for BackendCommand {
    fn dup(&self) -> (r: BackendCommand) {
        match self {
            BackendCommand::FetchMailboxes { origin } => BackendCommand::FetchMailboxes {
                origin: origin.dup(),
            },
            BackendCommand::CreateMailbox { name } => BackendCommand::CreateMailbox {
                name: name.dup(),
            },
            BackendCommand::DeleteMailbox { id, name } => BackendCommand::DeleteMailbox {
                id: id.dup(),
                name: name.dup(),
            },
            BackendCommand::QueryEmails {
                origin,
                mailbox_id,
                page_size,
                position,
                search_query,
                received_after,
                received_before,
            } => BackendCommand::QueryEmails {
                origin: origin.dup(),
                mailbox_id: mailbox_id.dup(),
                page_size: *page_size,
                position: *position,
                search_query: search_query.dup(),
                received_after: received_after.dup(),
                received_before: received_before.dup(),
            },
            BackendCommand::GetEmail { id } => BackendCommand::GetEmail {
                id: id.dup(),
            },
            BackendCommand::GetEmailForReply { id } => BackendCommand::GetEmailForReply {
                id: id.dup(),
            },
            BackendCommand::MarkEmailRead { op_id, id } => BackendCommand::MarkEmailRead {
                op_id: *op_id,
                id: id.dup(),
            },
            BackendCommand::MarkEmailUnread { op_id, id } => BackendCommand::MarkEmailUnread {
                op_id: *op_id,
                id: id.dup(),
            },
            BackendCommand::SetEmailFlagged {
                op_id,
                id,
                flagged,
            } => BackendCommand::SetEmailFlagged {
                op_id: *op_id,
                id: id.dup(),
                flagged: *flagged,
            },
            BackendCommand::MoveEmail { op_id, id, to_mailbox_id } => BackendCommand::MoveEmail {
                op_id: *op_id,
                id: id.dup(),
                to_mailbox_id: to_mailbox_id.dup(),
            },
            BackendCommand::MoveThread {
                op_id,
                thread_id,
                to_mailbox_id,
            } => BackendCommand::MoveThread {
                op_id: *op_id,
                thread_id: thread_id.dup(),
                to_mailbox_id: to_mailbox_id.dup(),
            },
            BackendCommand::DestroyEmail { op_id, id } => BackendCommand::DestroyEmail {
                op_id: *op_id,
                id: id.dup(),
            },
            BackendCommand::DestroyThread { op_id, thread_id } => BackendCommand::DestroyThread {
                op_id: *op_id,
                thread_id: thread_id.dup(),
            },
            BackendCommand::QueryThreadEmails { thread_id } => BackendCommand::QueryThreadEmails {
                thread_id: thread_id.dup(),
            },
            BackendCommand::MarkThreadRead {
                thread_id,
                email_ids,
            } => BackendCommand::MarkThreadRead {
                thread_id: thread_id.dup(),
                email_ids: email_ids.dup(),
            },
            BackendCommand::MarkMailboxRead {
                mailbox_id,
                mailbox_name,
            } => BackendCommand::MarkMailboxRead {
                mailbox_id: mailbox_id.dup(),
                mailbox_name: mailbox_name.dup(),
            },
            BackendCommand::GetEmailRawHeaders { id } => BackendCommand::GetEmailRawHeaders {
                id: id.dup(),
            },
            BackendCommand::DownloadAttachment {
                blob_id,
                name,
                content_type,
            } => BackendCommand::DownloadAttachment {
                blob_id: blob_id.dup(),
                name: name.dup(),
                content_type: content_type.dup(),
            },
            BackendCommand::PreviewRetentionExpiry {
                policies,
            } => BackendCommand::PreviewRetentionExpiry {
                policies: policies.dup(),
            },
            BackendCommand::ExecuteRetentionExpiry {
                policies,
            } => BackendCommand::ExecuteRetentionExpiry {
                policies: policies.dup(),
            },
            BackendCommand::PreviewRulesForMailbox {
                origin,
                mailbox_id,
                mailbox_name,
            } => BackendCommand::PreviewRulesForMailbox {
                origin: origin.dup(),
                mailbox_id: mailbox_id.dup(),
                mailbox_name: mailbox_name.dup(),
            },
            BackendCommand::RunRulesForMailbox {
                origin,
                mailbox_id,
                mailbox_name,
            } => BackendCommand::RunRulesForMailbox {
                origin: origin.dup(),
                mailbox_id: mailbox_id.dup(),
                mailbox_name: mailbox_name.dup(),
            },
            BackendCommand::Shutdown => BackendCommand::Shutdown,
        }
    }
}

/// A message that a retention policy lets go.
#[derive(Debug)]
pub struct RetentionCandidate {
    pub id: String,
    pub mailbox: String,
    pub policy: String,
    pub received_at: String,
    pub from: String,
    pub subject: String,
}

/// The contents of a `RetentionCandidate`.
pub struct RetentionCandidateV {
    pub id: Seq<char>,
    pub mailbox: Seq<char>,
    pub policy: Seq<char>,
    pub received_at: Seq<char>,
    pub from: Seq<char>,
    pub subject: Seq<char>,
}

impl DeepView for RetentionCandidate {
    type V = RetentionCandidateV;

    open spec fn deep_view(&self) -> RetentionCandidateV {
        RetentionCandidateV {
            id: self.id@,
            mailbox: self.mailbox@,
            policy: self.policy@,
            received_at: self.received_at@,
            from: self.from@,
            subject: self.subject@,
        }
    }
}

impl Dup for RetentionCandidate {
    fn dup(&self) -> (r: RetentionCandidate) {
        RetentionCandidate {
            id: self.id.dup(),
            mailbox: self.mailbox.dup(),
            policy: self.policy.dup(),
            received_at: self.received_at.dup(),
            from: self.from.dup(),
            subject: self.subject.dup(),
        }
    }
}

/// What retention policies would let go.
#[derive(Debug)]
pub struct RetentionPreviewResult {
    pub candidates: Vec<RetentionCandidate>,
}

/// The contents of a `RetentionPreviewResult`.
pub struct RetentionPreviewResultV {
    pub candidates: Seq<RetentionCandidateV>,
}

impl DeepView for RetentionPreviewResult {
    type V = RetentionPreviewResultV;

    open spec fn deep_view(&self) -> RetentionPreviewResultV {
        RetentionPreviewResultV {
            candidates: self.candidates.deep_view(),
        }
    }
}

impl Dup for RetentionPreviewResult {
    fn dup(&self) -> (r: RetentionPreviewResult) {
        RetentionPreviewResult {
            candidates: self.candidates.dup(),
        }
    }
}

/// What retention policies have let go.
#[derive(Debug)]
pub struct RetentionExecutionResult {
    pub deleted: usize,
    pub failed_batches: Vec<String>,
}

/// The contents of a `RetentionExecutionResult`.
pub struct RetentionExecutionResultV {
    pub deleted: usize,
    pub failed_batches: Seq<Seq<char>>,
}

impl DeepView for RetentionExecutionResult {
    type V = RetentionExecutionResultV;

    open spec fn deep_view(&self) -> RetentionExecutionResultV {
        RetentionExecutionResultV {
            deleted: self.deleted,
            failed_batches: self.failed_batches.deep_view(),
        }
    }
}

impl Dup for RetentionExecutionResult {
    fn dup(&self) -> (r: RetentionExecutionResult) {
        RetentionExecutionResult {
            deleted: self.deleted,
            failed_batches: self.failed_batches.dup(),
        }
    }
}

/// What a run of the rules has done.
#[derive(Debug)]
pub struct RulesRunResult {
    pub scanned: usize,
    pub matched_rules: usize,
    pub actions: usize,
}

/// The contents of a `RulesRunResult`.
pub struct RulesRunResultV {
    pub scanned: usize,
    pub matched_rules: usize,
    pub actions: usize,
}

impl DeepView for RulesRunResult {
    type V = RulesRunResultV;

    open spec fn deep_view(&self) -> RulesRunResultV {
        RulesRunResultV {
            scanned: self.scanned,
            matched_rules: self.matched_rules,
            actions: self.actions,
        }
    }
}

impl Dup for RulesRunResult {
    fn dup(&self) -> (r: RulesRunResult) {
        RulesRunResult {
            scanned: self.scanned,
            matched_rules: self.matched_rules,
            actions: self.actions,
        }
    }
}

/// What a rule would do to a message.
#[derive(Debug)]
pub struct RulesDryRunEntry {
    pub received_at: String,
    pub from: String,
    pub subject: String,
    pub rule_name: String,
    pub actions: Vec<String>,
}

/// The contents of a `RulesDryRunEntry`.
pub struct RulesDryRunEntryV {
    pub received_at: Seq<char>,
    pub from: Seq<char>,
    pub subject: Seq<char>,
    pub rule_name: Seq<char>,
    pub actions: Seq<Seq<char>>,
}

impl DeepView for RulesDryRunEntry {
    type V = RulesDryRunEntryV;

    open spec fn deep_view(&self) -> RulesDryRunEntryV {
        RulesDryRunEntryV {
            received_at: self.received_at@,
            from: self.from@,
            subject: self.subject@,
            rule_name: self.rule_name@,
            actions: self.actions.deep_view(),
        }
    }
}

impl Dup for RulesDryRunEntry {
    fn dup(&self) -> (r: RulesDryRunEntry) {
        RulesDryRunEntry {
            received_at: self.received_at.dup(),
            from: self.from.dup(),
            subject: self.subject.dup(),
            rule_name: self.rule_name.dup(),
            actions: self.actions.dup(),
        }
    }
}

/// What a run of the rules would do.
#[derive(Debug)]
pub struct RulesDryRunResult {
    pub scanned: usize,
    pub matched_rules: usize,
    pub actions: usize,
    pub entries: Vec<RulesDryRunEntry>,
}

/// The contents of a `RulesDryRunResult`.
pub struct RulesDryRunResultV {
    pub scanned: usize,
    pub matched_rules: usize,
    pub actions: usize,
    pub entries: Seq<RulesDryRunEntryV>,
}

impl DeepView for RulesDryRunResult {
    type V = RulesDryRunResultV;

    open spec fn deep_view(&self) -> RulesDryRunResultV {
        RulesDryRunResultV {
            scanned: self.scanned,
            matched_rules: self.matched_rules,
            actions: self.actions,
            entries: self.entries.deep_view(),
        }
    }
}

impl Dup for RulesDryRunResult {
    fn dup(&self) -> (r: RulesDryRunResult) {
        RulesDryRunResult {
            scanned: self.scanned,
            matched_rules: self.matched_rules,
            actions: self.actions,
            entries: self.entries.dup(),
        }
    }
}

/// What the console is told.
#[derive(Debug)]
pub enum BackendResponse {
    Mailboxes(Result<Vec<Mailbox>, String>),
    MailboxCreated { name: String, result: Result<(), String> },
    MailboxDeleted { name: String, result: Result<(), String> },
    Emails {
        mailbox_id: String,
        emails: Result<Vec<Email>, String>,
        total: Option<u32>,
        position: u32,
        loaded: u32,
        thread_counts: StrMap<(usize, usize)>,
    },
    ThreadEmails { thread_id: String, emails: Result<Vec<Email>, String> },
    EmailBody { id: String, result: Result<Email, String> },
    EmailForReply { id: String, result: Result<Email, String> },
    EmailMutation {
        op_id: u64,
        id: String,
        action: EmailMutationAction,
        result: Result<(), String>,
    },
    ThreadMarkedRead { thread_id: String, result: Result<(), String> },
    MailboxMarkedRead {
        mailbox_id: String,
        mailbox_name: String,
        updated: usize,
        result: Result<(), String>,
    },
    EmailRawHeaders { id: String, result: Result<String, String> },
    AttachmentDownloaded { name: String, result: Result<String, String> },
    RetentionPreview { result: Result<RetentionPreviewResult, String> },
    RetentionExecuted { result: Result<RetentionExecutionResult, String> },
    RulesDryRun {
        mailbox_id: String,
        mailbox_name: String,
        result: Result<RulesDryRunResult, String>,
    },
    RulesRun { mailbox_id: String, mailbox_name: String, result: Result<RulesRunResult, String> },
}

/// The contents of a `BackendResponse`.
pub enum BackendResponseV {
    Mailboxes(Result<Seq<MailboxV>, Seq<char>>),
    MailboxCreated { name: Seq<char>, result: Result<(), Seq<char>> },
    MailboxDeleted { name: Seq<char>, result: Result<(), Seq<char>> },
    Emails {
        mailbox_id: Seq<char>,
        emails: Result<Seq<EmailV>, Seq<char>>,
        total: Option<u32>,
        position: u32,
        loaded: u32,
        thread_counts: Seq<(Seq<char>, (usize, usize))>,
    },
    ThreadEmails { thread_id: Seq<char>, emails: Result<Seq<EmailV>, Seq<char>> },
    EmailBody { id: Seq<char>, result: Result<EmailV, Seq<char>> },
    EmailForReply { id: Seq<char>, result: Result<EmailV, Seq<char>> },
    EmailMutation {
        op_id: u64,
        id: Seq<char>,
        action: EmailMutationAction,
        result: Result<(), Seq<char>>,
    },
    ThreadMarkedRead { thread_id: Seq<char>, result: Result<(), Seq<char>> },
    MailboxMarkedRead {
        mailbox_id: Seq<char>,
        mailbox_name: Seq<char>,
        updated: usize,
        result: Result<(), Seq<char>>,
    },
    EmailRawHeaders { id: Seq<char>, result: Result<Seq<char>, Seq<char>> },
    AttachmentDownloaded { name: Seq<char>, result: Result<Seq<char>, Seq<char>> },
    RetentionPreview { result: Result<RetentionPreviewResultV, Seq<char>> },
    RetentionExecuted { result: Result<RetentionExecutionResultV, Seq<char>> },
    RulesDryRun {
        mailbox_id: Seq<char>,
        mailbox_name: Seq<char>,
        result: Result<RulesDryRunResultV, Seq<char>>,
    },
    RulesRun {
        mailbox_id: Seq<char>,
        mailbox_name: Seq<char>,
        result: Result<RulesRunResultV, Seq<char>>,
    },
}

impl DeepView for BackendResponse {
    type V = BackendResponseV;

    open spec fn deep_view(&self) -> BackendResponseV {
        match self {
            BackendResponse::Mailboxes(a0) => BackendResponseV::Mailboxes(result_view(*a0)),
            BackendResponse::MailboxCreated { name, result } => BackendResponseV::MailboxCreated {
                name: name@,
                result: result_view(*result),
            },
            BackendResponse::MailboxDeleted { name, result } => BackendResponseV::MailboxDeleted {
                name: name@,
                result: result_view(*result),
            },
            BackendResponse::Emails {
                mailbox_id,
                emails,
                total,
                position,
                loaded,
                thread_counts,
            } => BackendResponseV::Emails {
                mailbox_id: mailbox_id@,
                emails: result_view(*emails),
                total: total.deep_view(),
                position: *position,
                loaded: *loaded,
                thread_counts: thread_counts.deep_view(),
            },
            BackendResponse::ThreadEmails { thread_id, emails } => BackendResponseV::ThreadEmails {
                thread_id: thread_id@,
                emails: result_view(*emails),
            },
            BackendResponse::EmailBody { id, result } => BackendResponseV::EmailBody {
                id: id@,
                result: result_view(*result),
            },
            BackendResponse::EmailForReply { id, result } => BackendResponseV::EmailForReply {
                id: id@,
                result: result_view(*result),
            },
            BackendResponse::EmailMutation {
                op_id,
                id,
                action,
                result,
            } => BackendResponseV::EmailMutation {
                op_id: *op_id,
                id: id@,
                action: *action,
                result: result_view(*result),
            },
            BackendResponse::ThreadMarkedRead {
                thread_id,
                result,
            } => BackendResponseV::ThreadMarkedRead {
                thread_id: thread_id@,
                result: result_view(*result),
            },
            BackendResponse::MailboxMarkedRead {
                mailbox_id,
                mailbox_name,
                updated,
                result,
            } => BackendResponseV::MailboxMarkedRead {
                mailbox_id: mailbox_id@,
                mailbox_name: mailbox_name@,
                updated: *updated,
                result: result_view(*result),
            },
            BackendResponse::EmailRawHeaders { id, result } => BackendResponseV::EmailRawHeaders {
                id: id@,
                result: result_view(*result),
            },
            BackendResponse::AttachmentDownloaded {
                name,
                result,
            } => BackendResponseV::AttachmentDownloaded {
                name: name@,
                result: result_view(*result),
            },
            BackendResponse::RetentionPreview { result } => BackendResponseV::RetentionPreview {
                result: result_view(*result),
            },
            BackendResponse::RetentionExecuted { result } => BackendResponseV::RetentionExecuted {
                result: result_view(*result),
            },
            BackendResponse::RulesDryRun {
                mailbox_id,
                mailbox_name,
                result,
            } => BackendResponseV::RulesDryRun {
                mailbox_id: mailbox_id@,
                mailbox_name: mailbox_name@,
                result: result_view(*result),
            },
            BackendResponse::RulesRun {
                mailbox_id,
                mailbox_name,
                result,
            } => BackendResponseV::RulesRun {
                mailbox_id: mailbox_id@,
                mailbox_name: mailbox_name@,
                result: result_view(*result),
            },
        }
    }
}

/// A retention policy as it stood when it was queued.
#[derive(Debug)]
pub struct RetentionPolicySnapshot {
    pub name: String,
    pub folder: String,
    pub days: u32,
}

/// The contents of a `RetentionPolicySnapshot`.
pub struct RetentionPolicySnapshotV {
    pub name: Seq<char>,
    pub folder: Seq<char>,
    pub days: u32,
}

impl DeepView for RetentionPolicySnapshot {
    type V = RetentionPolicySnapshotV;

    open spec fn deep_view(&self) -> RetentionPolicySnapshotV {
        RetentionPolicySnapshotV {
            name: self.name@,
            folder: self.folder@,
            days: self.days,
        }
    }
}

impl Dup for RetentionPolicySnapshot {
    fn dup(&self) -> (r: RetentionPolicySnapshot) {
        RetentionPolicySnapshot {
            name: self.name.dup(),
            folder: self.folder.dup(),
            days: self.days,
        }
    }
}

/// A change that waits to be sent to the server.
#[derive(Debug)]
pub enum QueuedMutation {
    MarkRead { op_id: u64, id: String },
    MarkUnread { op_id: u64, id: String },
    SetFlagged { op_id: u64, id: String, flagged: bool },
    MoveEmail { op_id: u64, id: String, to_mailbox_id: String },
    MoveThread { op_id: u64, thread_id: String, to_mailbox_id: String },
    DestroyEmail { op_id: u64, id: String },
    DestroyThread { op_id: u64, thread_id: String },
    MarkThreadRead { thread_id: String, email_ids: Vec<String> },
    MarkMailboxRead { mailbox_id: String, mailbox_name: String },
    RunRulesForMailbox { mailbox_id: String },
    ExecuteRetentionExpiry { policies: Vec<RetentionPolicySnapshot> },
}

/// The contents of a `QueuedMutation`.
pub enum QueuedMutationV {
    MarkRead { op_id: u64, id: Seq<char> },
    MarkUnread { op_id: u64, id: Seq<char> },
    SetFlagged { op_id: u64, id: Seq<char>, flagged: bool },
    MoveEmail { op_id: u64, id: Seq<char>, to_mailbox_id: Seq<char> },
    MoveThread { op_id: u64, thread_id: Seq<char>, to_mailbox_id: Seq<char> },
    DestroyEmail { op_id: u64, id: Seq<char> },
    DestroyThread { op_id: u64, thread_id: Seq<char> },
    MarkThreadRead { thread_id: Seq<char>, email_ids: Seq<Seq<char>> },
    MarkMailboxRead { mailbox_id: Seq<char>, mailbox_name: Seq<char> },
    RunRulesForMailbox { mailbox_id: Seq<char> },
    ExecuteRetentionExpiry { policies: Seq<RetentionPolicySnapshotV> },
}

impl DeepView for QueuedMutation {
    type V = QueuedMutationV;

    open spec fn deep_view(&self) -> QueuedMutationV {
        match self {
            QueuedMutation::MarkRead { op_id, id } => QueuedMutationV::MarkRead {
                op_id: *op_id,
                id: id@,
            },
            QueuedMutation::MarkUnread { op_id, id } => QueuedMutationV::MarkUnread {
                op_id: *op_id,
                id: id@,
            },
            QueuedMutation::SetFlagged { op_id, id, flagged } => QueuedMutationV::SetFlagged {
                op_id: *op_id,
                id: id@,
                flagged: *flagged,
            },
            QueuedMutation::MoveEmail { op_id, id, to_mailbox_id } => QueuedMutationV::MoveEmail {
                op_id: *op_id,
                id: id@,
                to_mailbox_id: to_mailbox_id@,
            },
            QueuedMutation::MoveThread {
                op_id,
                thread_id,
                to_mailbox_id,
            } => QueuedMutationV::MoveThread {
                op_id: *op_id,
                thread_id: thread_id@,
                to_mailbox_id: to_mailbox_id@,
            },
            QueuedMutation::DestroyEmail { op_id, id } => QueuedMutationV::DestroyEmail {
                op_id: *op_id,
                id: id@,
            },
            QueuedMutation::DestroyThread { op_id, thread_id } => QueuedMutationV::DestroyThread {
                op_id: *op_id,
                thread_id: thread_id@,
            },
            QueuedMutation::MarkThreadRead {
                thread_id,
                email_ids,
            } => QueuedMutationV::MarkThreadRead {
                thread_id: thread_id@,
                email_ids: email_ids.deep_view(),
            },
            QueuedMutation::MarkMailboxRead {
                mailbox_id,
                mailbox_name,
            } => QueuedMutationV::MarkMailboxRead {
                mailbox_id: mailbox_id@,
                mailbox_name: mailbox_name@,
            },
            QueuedMutation::RunRulesForMailbox {
                mailbox_id,
            } => QueuedMutationV::RunRulesForMailbox {
                mailbox_id: mailbox_id@,
            },
            QueuedMutation::ExecuteRetentionExpiry {
                policies,
            } => QueuedMutationV::ExecuteRetentionExpiry {
                policies: policies.deep_view(),
            },
        }
    }
}

impl Dup for QueuedMutation {
    fn dup(&self) -> (r: QueuedMutation) {
        match self {
            QueuedMutation::MarkRead { op_id, id } => QueuedMutation::MarkRead {
                op_id: *op_id,
                id: id.dup(),
            },
            QueuedMutation::MarkUnread { op_id, id } => QueuedMutation::MarkUnread {
                op_id: *op_id,
                id: id.dup(),
            },
            QueuedMutation::SetFlagged { op_id, id, flagged } => QueuedMutation::SetFlagged {
                op_id: *op_id,
                id: id.dup(),
                flagged: *flagged,
            },
            QueuedMutation::MoveEmail { op_id, id, to_mailbox_id } => QueuedMutation::MoveEmail {
                op_id: *op_id,
                id: id.dup(),
                to_mailbox_id: to_mailbox_id.dup(),
            },
            QueuedMutation::MoveThread {
                op_id,
                thread_id,
                to_mailbox_id,
            } => QueuedMutation::MoveThread {
                op_id: *op_id,
                thread_id: thread_id.dup(),
                to_mailbox_id: to_mailbox_id.dup(),
            },
            QueuedMutation::DestroyEmail { op_id, id } => QueuedMutation::DestroyEmail {
                op_id: *op_id,
                id: id.dup(),
            },
            QueuedMutation::DestroyThread { op_id, thread_id } => QueuedMutation::DestroyThread {
                op_id: *op_id,
                thread_id: thread_id.dup(),
            },
            QueuedMutation::MarkThreadRead {
                thread_id,
                email_ids,
            } => QueuedMutation::MarkThreadRead {
                thread_id: thread_id.dup(),
                email_ids: email_ids.dup(),
            },
            QueuedMutation::MarkMailboxRead {
                mailbox_id,
                mailbox_name,
            } => QueuedMutation::MarkMailboxRead {
                mailbox_id: mailbox_id.dup(),
                mailbox_name: mailbox_name.dup(),
            },
            QueuedMutation::RunRulesForMailbox {
                mailbox_id,
            } => QueuedMutation::RunRulesForMailbox {
                mailbox_id: mailbox_id.dup(),
            },
            QueuedMutation::ExecuteRetentionExpiry {
                policies,
            } => QueuedMutation::ExecuteRetentionExpiry {
                policies: policies.dup(),
            },
        }
    }
}

} // verus!
