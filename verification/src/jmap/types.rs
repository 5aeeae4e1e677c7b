//! The objects of a mail account.

use vstd::prelude::*;

use crate::data::{lookup, Dup, StrMap};
use crate::json::Json;
use crate::json::JsonV;

verus! {

/// An account of a session.
#[derive(Debug)]
pub struct JmapAccount {
    pub name: String,
    pub is_personal: bool,
    pub is_read_only: bool,
}

/// The contents of a `JmapAccount`.
pub struct JmapAccountV {
    pub name: Seq<char>,
    pub is_personal: bool,
    pub is_read_only: bool,
}

impl DeepView for JmapAccount {
    type V = JmapAccountV;

    open spec fn deep_view(&self) -> JmapAccountV {
        JmapAccountV {
            name: self.name@,
            is_personal: self.is_personal,
            is_read_only: self.is_read_only,
        }
    }
}

/// What the server says of a session.
#[derive(Debug)]
pub struct JmapSession {
    pub username: String,
    pub api_url: String,
    pub download_url: Option<String>,
    pub primary_accounts: StrMap<String>,
    pub accounts: StrMap<JmapAccount>,
}

/// The contents of a `JmapSession`.
pub struct JmapSessionV {
    pub username: Seq<char>,
    pub api_url: Seq<char>,
    pub download_url: Option<Seq<char>>,
    pub primary_accounts: Seq<(Seq<char>, Seq<char>)>,
    pub accounts: Seq<(Seq<char>, JmapAccountV)>,
}

impl DeepView for JmapSession {
    type V = JmapSessionV;

    open spec fn deep_view(&self) -> JmapSessionV {
        JmapSessionV {
            username: self.username@,
            api_url: self.api_url@,
            download_url: self.download_url.deep_view(),
            primary_accounts: self.primary_accounts.deep_view(),
            accounts: self.accounts.deep_view(),
        }
    }
}

/// The account that holds the mail: the primary one, or else the only one.
pub open spec fn mail_account(s: JmapSessionV) -> Option<Seq<char>> {
    match lookup(s.primary_accounts, "urn:ietf:params:jmap:mail"@) {
        Some(id) => Some(id),
        None => if s.accounts.len() == 1 {
            Some(s.accounts[0].0)
        } else {
            None
        },
    }
}

impl JmapSession {
    /// The account that holds the mail: the primary one, or else the only one.
    pub fn mail_account_id(&self) -> (r: Option<&str>)
        ensures
            match r {
                Some(id) => mail_account(self.deep_view()) == Some(id@),
                None => mail_account(self.deep_view()) is None,
            },
    {
        match self.primary_accounts.get("urn:ietf:params:jmap:mail") {
            Some(id) => Some(id.as_str()),
            None => if self.accounts.len() == 1 {
                Some(self.accounts.key_at(0))
            } else {
                None
            },
        }
    }
}

/// A mailbox of the account.
#[derive(Debug)]
pub struct Mailbox {
    pub id: String,
    pub name: String,
    pub parent_id: Option<String>,
    pub role: Option<String>,
    pub total_emails: u32,
    pub unread_emails: u32,
    pub sort_order: u32,
}

/// The contents of a `Mailbox`.
pub struct MailboxV {
    pub id: Seq<char>,
    pub name: Seq<char>,
    pub parent_id: Option<Seq<char>>,
    pub role: Option<Seq<char>>,
    pub total_emails: u32,
    pub unread_emails: u32,
    pub sort_order: u32,
}

impl DeepView for Mailbox {
    type V = MailboxV;

    open spec fn deep_view(&self) -> MailboxV {
        MailboxV {
            id: self.id@,
            name: self.name@,
            parent_id: self.parent_id.deep_view(),
            role: self.role.deep_view(),
            total_emails: self.total_emails,
            unread_emails: self.unread_emails,
            sort_order: self.sort_order,
        }
    }
}

impl Dup for Mailbox {
    fn dup(&self) -> (r: Mailbox) {
        Mailbox {
            id: self.id.dup(),
            name: self.name.dup(),
            parent_id: self.parent_id.dup(),
            role: self.role.dup(),
            total_emails: self.total_emails,
            unread_emails: self.unread_emails,
            sort_order: self.sort_order,
        }
    }
}

/// One page of the ids that a query found.
#[derive(Debug)]
pub struct EmailQueryResult {
    pub ids: Vec<String>,
    pub total: Option<u32>,
    pub position: u32,
}

/// The contents of an `EmailQueryResult`.
pub struct EmailQueryResultV {
    pub ids: Seq<Seq<char>>,
    pub total: Option<u32>,
    pub position: u32,
}

impl DeepView for EmailQueryResult {
    type V = EmailQueryResultV;

    open spec fn deep_view(&self) -> EmailQueryResultV {
        EmailQueryResultV {
            ids: self.ids.deep_view(),
            total: self.total.deep_view(),
            position: self.position,
        }
    }
}

impl Dup for EmailQueryResult {
    fn dup(&self) -> (r: EmailQueryResult) {
        EmailQueryResult {
            ids: self.ids.dup(),
            total: self.total.dup(),
            position: self.position,
        }
    }
}

/// A name and an address, either of which may be missing.
#[derive(Debug)]
pub struct EmailAddress {
    pub name: Option<String>,
    pub email: Option<String>,
}

/// The contents of an `EmailAddress`.
pub struct EmailAddressV {
    pub name: Option<Seq<char>>,
    pub email: Option<Seq<char>>,
}

impl DeepView for EmailAddress {
    type V = EmailAddressV;

    open spec fn deep_view(&self) -> EmailAddressV {
        EmailAddressV {
            name: self.name.deep_view(),
            email: self.email.deep_view(),
        }
    }
}

impl Dup for EmailAddress {
    fn dup(&self) -> (r: EmailAddress) {
        EmailAddress {
            name: self.name.dup(),
            email: self.email.dup(),
        }
    }
}

/// How an address is shown.
pub open spec fn shown_address(a: EmailAddressV) -> Seq<char> {
    match (a.name, a.email) {
        (Some(name), Some(email)) => name + " <"@ + email + ">"@,
        (None, Some(email)) => email,
        (Some(name), None) => name,
        (None, None) => "(unknown)"@,
    }
}

impl EmailAddress {
    /// How an address is shown.
    pub fn to_string(&self) -> (r: String)
        ensures
            r@ == shown_address(self.deep_view()),
    {
        match (&self.name, &self.email) {
            (Some(name), Some(email)) => {
                let mut s = name.clone();
                s.append(" <");
                s.append(email.as_str());
                s.append(">");
                s
            },
            (None, Some(email)) => email.clone(),
            (Some(name), None) => name.clone(),
            (None, None) => "(unknown)".to_owned(),
        }
    }
}

/// A part of a message: a body text or an attachment.
#[derive(Debug)]
pub struct BodyPart {
    pub part_id: String,
    pub blob_id: Option<String>,
    pub content_type: Option<String>,
    pub name: Option<String>,
    pub size: Option<u64>,
}

/// The contents of a `BodyPart`.
pub struct BodyPartV {
    pub part_id: Seq<char>,
    pub blob_id: Option<Seq<char>>,
    pub content_type: Option<Seq<char>>,
    pub name: Option<Seq<char>>,
    pub size: Option<u64>,
}

impl DeepView for BodyPart {
    type V = BodyPartV;

    open spec fn deep_view(&self) -> BodyPartV {
        BodyPartV {
            part_id: self.part_id@,
            blob_id: self.blob_id.deep_view(),
            content_type: self.content_type.deep_view(),
            name: self.name.deep_view(),
            size: self.size.deep_view(),
        }
    }
}

impl Dup for BodyPart {
    fn dup(&self) -> (r: BodyPart) {
        BodyPart {
            part_id: self.part_id.dup(),
            blob_id: self.blob_id.dup(),
            content_type: self.content_type.dup(),
            name: self.name.dup(),
            size: self.size.dup(),
        }
    }
}

/// The text of a body part.
#[derive(Debug)]
pub struct BodyValue {
    pub value: String,
    pub is_encoding_problem: bool,
    pub is_truncated: bool,
}

/// The contents of a `BodyValue`.
pub struct BodyValueV {
    pub value: Seq<char>,
    pub is_encoding_problem: bool,
    pub is_truncated: bool,
}

impl DeepView for BodyValue {
    type V = BodyValueV;

    open spec fn deep_view(&self) -> BodyValueV {
        BodyValueV {
            value: self.value@,
            is_encoding_problem: self.is_encoding_problem,
            is_truncated: self.is_truncated,
        }
    }
}

impl Dup for BodyValue {
    fn dup(&self) -> (r: BodyValue) {
        BodyValue {
            value: self.value.dup(),
            is_encoding_problem: self.is_encoding_problem,
            is_truncated: self.is_truncated,
        }
    }
}

/// A message.
#[derive(Debug)]
pub struct Email {
    pub id: String,
    pub thread_id: Option<String>,
    pub from: Option<Vec<EmailAddress>>,
    pub to: Option<Vec<EmailAddress>>,
    pub cc: Option<Vec<EmailAddress>>,
    pub reply_to: Option<Vec<EmailAddress>>,
    pub subject: Option<String>,
    pub received_at: Option<String>,
    pub sent_at: Option<String>,
    pub preview: Option<String>,
    pub text_body: Option<Vec<BodyPart>>,
    pub html_body: Option<Vec<BodyPart>>,
    pub body_values: StrMap<BodyValue>,
    pub keywords: StrMap<bool>,
    pub mailbox_ids: StrMap<bool>,
    pub message_id: Option<Vec<String>>,
    pub references: Option<Vec<String>>,
    pub attachments: Option<Vec<BodyPart>>,
    pub extra: StrMap<Json>,
}

/// The contents of an `Email`.
pub struct EmailV {
    pub id: Seq<char>,
    pub thread_id: Option<Seq<char>>,
    pub from: Option<Seq<EmailAddressV>>,
    pub to: Option<Seq<EmailAddressV>>,
    pub cc: Option<Seq<EmailAddressV>>,
    pub reply_to: Option<Seq<EmailAddressV>>,
    pub subject: Option<Seq<char>>,
    pub received_at: Option<Seq<char>>,
    pub sent_at: Option<Seq<char>>,
    pub preview: Option<Seq<char>>,
    pub text_body: Option<Seq<BodyPartV>>,
    pub html_body: Option<Seq<BodyPartV>>,
    pub body_values: Seq<(Seq<char>, BodyValueV)>,
    pub keywords: Seq<(Seq<char>, bool)>,
    pub mailbox_ids: Seq<(Seq<char>, bool)>,
    pub message_id: Option<Seq<Seq<char>>>,
    pub references: Option<Seq<Seq<char>>>,
    pub attachments: Option<Seq<BodyPartV>>,
    pub extra: Seq<(Seq<char>, JsonV)>,
}

impl DeepView for Email {
    type V = EmailV;

    open spec fn deep_view(&self) -> EmailV {
        EmailV {
            id: self.id@,
            thread_id: self.thread_id.deep_view(),
            from: self.from.deep_view(),
            to: self.to.deep_view(),
            cc: self.cc.deep_view(),
            reply_to: self.reply_to.deep_view(),
            subject: self.subject.deep_view(),
            received_at: self.received_at.deep_view(),
            sent_at: self.sent_at.deep_view(),
            preview: self.preview.deep_view(),
            text_body: self.text_body.deep_view(),
            html_body: self.html_body.deep_view(),
            body_values: self.body_values.deep_view(),
            keywords: self.keywords.deep_view(),
            mailbox_ids: self.mailbox_ids.deep_view(),
            message_id: self.message_id.deep_view(),
            references: self.references.deep_view(),
            attachments: self.attachments.deep_view(),
            extra: self.extra.deep_view(),
        }
    }
}

impl Dup for Email {
    fn dup(&self) -> (r: Email) {
        Email {
            id: self.id.dup(),
            thread_id: self.thread_id.dup(),
            from: self.from.dup(),
            to: self.to.dup(),
            cc: self.cc.dup(),
            reply_to: self.reply_to.dup(),
            subject: self.subject.dup(),
            received_at: self.received_at.dup(),
            sent_at: self.sent_at.dup(),
            preview: self.preview.dup(),
            text_body: self.text_body.dup(),
            html_body: self.html_body.dup(),
            body_values: self.body_values.dup(),
            keywords: self.keywords.dup(),
            mailbox_ids: self.mailbox_ids.dup(),
            message_id: self.message_id.dup(),
            references: self.references.dup(),
            attachments: self.attachments.dup(),
            extra: self.extra.dup(),
        }
    }
}

/// What a server answers to a query.
#[derive(Debug)]
pub struct EmailQueryResponse {
    pub account_id: String,
    pub query_state: String,
    pub ids: Vec<String>,
    pub position: u32,
    pub total: Option<u32>,
}

/// The contents of an `EmailQueryResponse`.
pub struct EmailQueryResponseV {
    pub account_id: Seq<char>,
    pub query_state: Seq<char>,
    pub ids: Seq<Seq<char>>,
    pub position: u32,
    pub total: Option<u32>,
}

impl DeepView for EmailQueryResponse {
    type V = EmailQueryResponseV;

    open spec fn deep_view(&self) -> EmailQueryResponseV {
        EmailQueryResponseV {
            account_id: self.account_id@,
            query_state: self.query_state@,
            ids: self.ids.deep_view(),
            position: self.position,
            total: self.total.deep_view(),
        }
    }
}

/// What a query found.
pub open spec fn query_result(r: EmailQueryResponseV) -> EmailQueryResultV {
    EmailQueryResultV { ids: r.ids, total: r.total, position: r.position }
}

impl EmailQueryResponse {
    /// What the query found.
    pub fn result(self) -> (r: EmailQueryResult)
        ensures
            r.deep_view() == query_result(self.deep_view()),
    {
        EmailQueryResult { ids: self.ids, total: self.total, position: self.position }
    }
}

/// The ids of the messages of one thread.
#[derive(Debug)]
pub struct Thread {
    pub id: String,
    pub email_ids: Vec<String>,
}

/// The contents of a `Thread`.
pub struct ThreadV {
    pub id: Seq<char>,
    pub email_ids: Seq<Seq<char>>,
}

impl DeepView for Thread {
    type V = ThreadV;

    open spec fn deep_view(&self) -> ThreadV {
        ThreadV {
            id: self.id@,
            email_ids: self.email_ids.deep_view(),
        }
    }
}

impl Dup for Thread {
    fn dup(&self) -> (r: Thread) {
        Thread {
            id: self.id.dup(),
            email_ids: self.email_ids.dup(),
        }
    }
}

} // verus!
