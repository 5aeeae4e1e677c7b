//! Sessions of commands and answers in JSON.
//!
//! A command is answered at once, or leads to a command for the backend, whose
//! response then makes the answer.

use regex::Regex;
use vstd::prelude::*;

use crate::backend::queue::next_id;
use crate::backend::{
    BackendCommand, BackendCommandV, BackendResponse, BackendResponseV, EmailMutationAction,
};
use crate::compose::{
    body_text, build_compose_draft, build_forward_draft, build_reply_draft, compose_draft,
    extract_body_text, forward_draft, reply_draft,
};
use crate::config::{AccountConfig, AccountConfigV};
use crate::data::{
    at, key_index, lemma_lookup_with_entry, lookup, no_items, put, put_all, with_entry, Dup, StrMap,
};
use crate::jmap::types::{
    BodyPart, BodyPartV, Email, EmailAddress, EmailAddressV, EmailV, Mailbox, MailboxV,
};
use crate::json::{
    bool_field, field, json_read, json_view, list_of, number_field, object_of, put_field, read_json,
    text_field, text_of, text_or_null, text_or_null_of, texts, texts_of, Json, JsonV,
};
use crate::rules::{
    resolve_mailbox_id, resolved_mailbox, suggest, suggestion_from, CompiledRule, CompiledRuleV,
    TriageHintActionDef,
};
use crate::text::{copy_list, dec, decimal, same, slice_text, to_chars, trim, trimmed};

verus! {

broadcast use vstd::seq_lib::group_seq_properties;

/// A key of a view, and what it does.
#[derive(Debug)]
pub struct KeyBinding {
    pub view: String,
    pub key: String,
    pub action: String,
    pub description: String,
}

/// The contents of a `KeyBinding`.
pub struct KeyBindingV {
    pub view: Seq<char>,
    pub key: Seq<char>,
    pub action: Seq<char>,
    pub description: Seq<char>,
}

impl DeepView for KeyBinding {
    type V = KeyBindingV;

    open spec fn deep_view(&self) -> KeyBindingV {
        KeyBindingV {
            view: self.view@,
            key: self.key@,
            action: self.action@,
            description: self.description@,
        }
    }
}

/// A proposal: the messages to be archived, and those to be deleted.
#[derive(Debug)]
pub struct TriagePlan {
    pub id: String,
    pub archive: Vec<String>,
    pub trash: Vec<String>,
}

/// The contents of a `TriagePlan`.
pub struct TriagePlanV {
    pub id: Seq<char>,
    pub archive: Seq<Seq<char>>,
    pub trash: Seq<Seq<char>>,
}

impl DeepView for TriagePlan {
    type V = TriagePlanV;

    open spec fn deep_view(&self) -> TriagePlanV {
        TriagePlanV {
            id: self.id@,
            archive: self.archive.deep_view(),
            trash: self.trash.deep_view(),
        }
    }
}

/// The state of a session: the accounts, the one that is connected, its mailboxes as
/// they were last listed, the rules that suggest what to do with messages, and the
/// proposals that were made.
#[derive(Debug)]
pub struct CliState {
    pub accounts: Vec<AccountConfig>,
    pub connected: bool,
    pub connected_account: Option<String>,
    pub connected_username: Option<String>,
    pub cached_mailboxes: Vec<Mailbox>,
    pub next_op_id: u64,
    pub archive_folder: String,
    pub deleted_folder: String,
    pub archive_mailbox_id: Option<String>,
    pub deleted_mailbox_id: Option<String>,
    pub bindings: Vec<KeyBinding>,
    pub rules: Vec<CompiledRule>,
    pub my_email_regex: Regex,
    pub plans: Vec<TriagePlan>,
}

/// The contents of a `CliState`.
pub struct CliStateV {
    pub accounts: Seq<AccountConfigV>,
    pub connected: bool,
    pub connected_account: Option<Seq<char>>,
    pub connected_username: Option<Seq<char>>,
    pub cached_mailboxes: Seq<MailboxV>,
    pub next_op_id: u64,
    pub archive_folder: Seq<char>,
    pub deleted_folder: Seq<char>,
    pub archive_mailbox_id: Option<Seq<char>>,
    pub deleted_mailbox_id: Option<Seq<char>>,
    pub bindings: Seq<KeyBindingV>,
    pub rules: Seq<CompiledRuleV>,
    pub my_email_regex: Regex,
    pub plans: Seq<TriagePlanV>,
}

impl DeepView for CliState {
    type V = CliStateV;

    open spec fn deep_view(&self) -> CliStateV {
        CliStateV {
            accounts: self.accounts.deep_view(),
            connected: self.connected,
            connected_account: self.connected_account.deep_view(),
            connected_username: self.connected_username.deep_view(),
            cached_mailboxes: self.cached_mailboxes.deep_view(),
            next_op_id: self.next_op_id,
            archive_folder: self.archive_folder@,
            deleted_folder: self.deleted_folder@,
            archive_mailbox_id: self.archive_mailbox_id.deep_view(),
            deleted_mailbox_id: self.deleted_mailbox_id.deep_view(),
            bindings: self.bindings.deep_view(),
            rules: self.rules.deep_view(),
            my_email_regex: self.my_email_regex,
            plans: self.plans.deep_view(),
        }
    }
}

/// What an answer of the backend is waited for.
#[derive(Debug)]
pub enum Waiting {
    Mailboxes,
    Created,
    Deleted,
    Query { headers_only: bool, max_body_chars: usize },
    Email { headers_only: bool, max_body_chars: usize },
    Thread { thread_id: String, headers_only: bool, max_body_chars: usize },
    Change,
    Folder { ids: Vec<String>, archive: bool, bulk: bool },
    Batch {
        items: Vec<(String, Option<String>)>,
        counted: bool,
        at: usize,
        results: Vec<Json>,
        succeeded: usize,
    },
    Suggest,
    Plan { archive: Vec<String>, trash: Vec<String> },
    MailboxRead,
    RawHeaders,
    Attachment,
    Reply { all: bool },
    Forward,
}

/// The contents of a `Waiting`.
pub enum WaitingV {
    Mailboxes,
    Created,
    Deleted,
    Query { headers_only: bool, max_body_chars: usize },
    Email { headers_only: bool, max_body_chars: usize },
    Thread { thread_id: Seq<char>, headers_only: bool, max_body_chars: usize },
    Change,
    Folder { ids: Seq<Seq<char>>, archive: bool, bulk: bool },
    Batch {
        items: Seq<(Seq<char>, Option<Seq<char>>)>,
        counted: bool,
        at: usize,
        results: Seq<JsonV>,
        succeeded: usize,
    },
    Suggest,
    Plan { archive: Seq<Seq<char>>, trash: Seq<Seq<char>> },
    MailboxRead,
    RawHeaders,
    Attachment,
    Reply { all: bool },
    Forward,
}

impl DeepView for Waiting {
    type V = WaitingV;

    open spec fn deep_view(&self) -> WaitingV {
        match self {
            Waiting::Mailboxes => WaitingV::Mailboxes,
            Waiting::Created => WaitingV::Created,
            Waiting::Deleted => WaitingV::Deleted,
            Waiting::Query { headers_only, max_body_chars } => WaitingV::Query {
                headers_only: *headers_only,
                max_body_chars: *max_body_chars,
            },
            Waiting::Email { headers_only, max_body_chars } => WaitingV::Email {
                headers_only: *headers_only,
                max_body_chars: *max_body_chars,
            },
            Waiting::Thread { thread_id, headers_only, max_body_chars } => WaitingV::Thread {
                thread_id: thread_id@,
                headers_only: *headers_only,
                max_body_chars: *max_body_chars,
            },
            Waiting::Change => WaitingV::Change,
            Waiting::Folder { ids, archive, bulk } => WaitingV::Folder {
                ids: ids.deep_view(),
                archive: *archive,
                bulk: *bulk,
            },
            Waiting::Suggest => WaitingV::Suggest,
            Waiting::Plan { archive, trash } => WaitingV::Plan {
                archive: archive.deep_view(),
                trash: trash.deep_view(),
            },
            Waiting::Batch { items, counted, at, results, succeeded } => WaitingV::Batch {
                items: items.deep_view(),
                counted: *counted,
                at: *at,
                results: results.deep_view(),
                succeeded: *succeeded,
            },
            Waiting::MailboxRead => WaitingV::MailboxRead,
            Waiting::RawHeaders => WaitingV::RawHeaders,
            Waiting::Attachment => WaitingV::Attachment,
            Waiting::Reply { all } => WaitingV::Reply {
                all: *all,
            },
            Waiting::Forward => WaitingV::Forward,
        }
    }
}

/// What comes next: an answer, a connection to an account after the old one is
/// ended if there is one, or a command for the backend.
#[derive(Debug)]
pub enum CliStep {
    Answer(Json),
    Connect { account: AccountConfig, shutdown: bool },
    Send { command: BackendCommand, waiting: Waiting },
}

/// The contents of a `CliStep`.
pub enum CliStepV {
    Answer(JsonV),
    Connect { account: AccountConfigV, shutdown: bool },
    Send { command: BackendCommandV, waiting: WaitingV },
}

impl DeepView for CliStep {
    type V = CliStepV;

    open spec fn deep_view(&self) -> CliStepV {
        match self {
            CliStep::Answer(a0) => CliStepV::Answer(a0.deep_view()),
            CliStep::Connect { account, shutdown } => CliStepV::Connect {
                account: account.deep_view(),
                shutdown: *shutdown,
            },
            CliStep::Send { command, waiting } => CliStepV::Send {
                command: command.deep_view(),
                waiting: waiting.deep_view(),
            },
        }
    }
}

// ---------------------------------------------------------------------------
// Answers
// ---------------------------------------------------------------------------

/// An answer that something went well, with data.
pub open spec fn ok_answer(data: JsonV) -> JsonV {
    match data {
        JsonV::Object(m) => JsonV::Object(with_entry(m, "ok"@, JsonV::Bool(true))),
        _ => JsonV::Object(
            Seq::empty().push(("data"@, data)).push(("ok"@, JsonV::Bool(true))),
        ),
    }
}

/// An answer that something went well, with data.
pub fn ok_response(data: Json) -> (r: Json)
    ensures
        r.deep_view() == ok_answer(data.deep_view()),
{
    let ghost dv = data.deep_view();
    match data {
        Json::Object(mut m) => {
            let ghost mv = m.deep_view();
            assert(dv->Object_0 =~= mv);
            let mut i: usize = 0;
            while i < m.len()
                invariant
                    i <= m@.len(),
                    mv == m.deep_view(),
                    dv == JsonV::Object(mv),
                    dv == data.deep_view(),
                    key_index(mv, "ok"@, 0) == key_index(mv, "ok"@, i as int),
                decreases m@.len() - i,
            {
                assert(mv[i as int].0 == m@[i as int].0@);
                if same(m[i].0.as_str(), "ok") {
                    m.set(i, ("ok".to_owned(), Json::Bool(true)));
                    assert(m.deep_view() =~= mv.update(i as int, ("ok"@, JsonV::Bool(true))));
                    return object_of(m);
                }
                i = i + 1;
            }
            put_field(&mut m, "ok", Json::Bool(true));
            object_of(m)
        },
        other => {
            let mut m: Vec<(String, Json)> = no_items();
            put_field(&mut m, "data", other);
            put_field(&mut m, "ok", Json::Bool(true));
            object_of(m)
        },
    }
}

/// An answer that something went wrong.
pub open spec fn err_answer(msg: Seq<char>) -> JsonV {
    JsonV::Object(
        Seq::empty().push(("ok"@, JsonV::Bool(false))).push(("error"@, JsonV::Text(msg))),
    )
}

/// An answer that something went wrong.
pub fn err_response(msg: &str) -> (r: Json)
    ensures
        r.deep_view() == err_answer(msg@),
{
    let mut m: Vec<(String, Json)> = no_items();
    put_field(&mut m, "ok", Json::Bool(false));
    put_field(&mut m, "error", text_of(msg));
    object_of(m)
}

/// Makes a list of what a function makes of each item.
pub(crate) fn list_map<T: DeepView, F: Fn(&T) -> Json>(
    v: &Vec<T>,
    f: F,
    Ghost(g): Ghost<spec_fn(T::V) -> JsonV>,
) -> (r: Json)
    requires
        forall|a: &T| #[trigger] f.requires((a,)),
        forall|a: &T, o: Json| #[trigger]
            f.ensures((a,), o) ==> o.deep_view() == g(a.deep_view()),
    ensures
        r.deep_view() == JsonV::List(v.deep_view().map_values(g)),
{
    let ghost all = v.deep_view().map_values(g);
    let mut out: Vec<Json> = no_items();
    let mut i: usize = 0;
    while i < v.len()
        invariant
            i <= v@.len(),
            all == v.deep_view().map_values(g),
            forall|a: &T| #[trigger] f.requires((a,)),
            forall|a: &T, o: Json| #[trigger]
                f.ensures((a,), o) ==> o.deep_view() == g(a.deep_view()),
            out.deep_view() == all.take(i as int),
        decreases v@.len() - i,
    {
        let j = f(&v[i]);
        put(&mut out, j);
        assert(all.take(i + 1) =~= all.take(i as int).push(all[i as int]));
        i = i + 1;
    }
    assert(all.take(all.len() as int) =~= all);
    list_of(out)
}

/// An address.
pub open spec fn address_json(a: EmailAddressV) -> JsonV {
    JsonV::Object(
        Seq::empty().push(("name"@, text_or_null(a.name))).push(
            ("email"@, text_or_null(a.email)),
        ),
    )
}

fn make_address(a: &EmailAddress) -> (r: Json)
    ensures
        r.deep_view() == address_json(a.deep_view()),
{
    let mut m: Vec<(String, Json)> = no_items();
    put_field(&mut m, "name", text_or_null_of(&a.name));
    put_field(&mut m, "email", text_or_null_of(&a.email));
    object_of(m)
}

/// Addresses, if there are any.
pub open spec fn addresses_json(list: Option<Seq<EmailAddressV>>) -> JsonV {
    match list {
        Some(l) => JsonV::List(l.map_values(|a: EmailAddressV| address_json(a))),
        None => JsonV::Null,
    }
}

fn make_addresses(list: &Option<Vec<EmailAddress>>) -> (r: Json)
    ensures
        r.deep_view() == addresses_json(list.deep_view()),
{
    match list {
        Some(l) => {
            let f = |a: &EmailAddress| -> (o: Json)
                ensures
                    o.deep_view() == address_json(a.deep_view()),
                { make_address(a) };
            list_map(l, f, Ghost(|a: EmailAddressV| address_json(a)))
        },
        None => Json::Null,
    }
}

/// An attachment.
pub open spec fn part_json(p: BodyPartV) -> JsonV {
    JsonV::Object(
        Seq::empty().push(("part_id"@, JsonV::Text(p.part_id))).push(
            ("blob_id"@, text_or_null(p.blob_id)),
        ).push(("type"@, text_or_null(p.content_type))).push(
            ("name"@, text_or_null(p.name)),
        ).push(
            (
                "size"@,
                match p.size {
                    Some(n) => JsonV::UInt(n),
                    None => JsonV::Null,
                },
            ),
        ),
    )
}

fn make_part(p: &BodyPart) -> (r: Json)
    ensures
        r.deep_view() == part_json(p.deep_view()),
{
    let mut m: Vec<(String, Json)> = no_items();
    put_field(&mut m, "part_id", text_of(p.part_id.as_str()));
    put_field(&mut m, "blob_id", text_or_null_of(&p.blob_id));
    put_field(&mut m, "type", text_or_null_of(&p.content_type));
    put_field(&mut m, "name", text_or_null_of(&p.name));
    put_field(
        &mut m,
        "size",
        match p.size {
            Some(n) => Json::UInt(n),
            None => Json::Null,
        },
    );
    object_of(m)
}

/// Attachments, if there are any.
pub open spec fn parts_json(list: Option<Seq<BodyPartV>>) -> JsonV {
    match list {
        Some(l) => JsonV::List(l.map_values(|p: BodyPartV| part_json(p))),
        None => JsonV::Null,
    }
}

fn make_parts(list: &Option<Vec<BodyPart>>) -> (r: Json)
    ensures
        r.deep_view() == parts_json(list.deep_view()),
{
    match list {
        Some(l) => {
            let f = |p: &BodyPart| -> (o: Json)
                ensures
                    o.deep_view() == part_json(p.deep_view()),
                { make_part(p) };
            list_map(l, f, Ghost(|p: BodyPartV| part_json(p)))
        },
        None => Json::Null,
    }
}

/// Texts, if there are any.
pub open spec fn texts_or_null(list: Option<Seq<Seq<char>>>) -> JsonV {
    match list {
        Some(l) => texts(l),
        None => JsonV::Null,
    }
}

fn make_texts(list: &Option<Vec<String>>) -> (r: Json)
    ensures
        r.deep_view() == texts_or_null(list.deep_view()),
{
    match list {
        Some(l) => texts_of(l),
        None => Json::Null,
    }
}

/// The keys of a map.
pub open spec fn keys_of<V>(m: Seq<(Seq<char>, V)>) -> Seq<Seq<char>> {
    m.map_values(|e: (Seq<char>, V)| e.0)
}

fn make_keys(m: &StrMap<bool>) -> (r: Json)
    ensures
        r.deep_view() == texts(keys_of(m.deep_view())),
{
    let ghost all = keys_of(m.deep_view());
    let n: usize = m.len();
    let mut keys: Vec<String> = no_items();
    let mut i: usize = 0;
    while i < n
        invariant
            i <= n,
            n == m.deep_view().len(),
            all == keys_of(m.deep_view()),
            keys.deep_view() == all.take(i as int),
        decreases n - i,
    {
        put(&mut keys, m.key_at(i).to_owned());
        assert(all.take(i + 1) =~= all.take(i as int).push(all[i as int]));
        i = i + 1;
    }
    assert(all.take(all.len() as int) =~= all);
    texts_of(&keys)
}

/// The text of a message as far as it is wanted, in characters, and whether some of
/// it is left out. No limit is 0.
pub open spec fn limited(text: Seq<char>, max: usize) -> (Seq<char>, bool) {
    if max > 0 && text.len() > max {
        (text.subrange(0, max as int), true)
    } else {
        (text, false)
    }
}

fn limit_text(text: String, max: usize) -> (r: (String, bool))
    ensures
        (r.0@, r.1) == limited(text@, max),
{
    let v = to_chars(text.as_str());
    if max > 0 && v.len() > max {
        (slice_text(&v, 0, max), true)
    } else {
        (text, false)
    }
}

/// What is always told of a message.
pub open spec fn email_fields(e: EmailV) -> Seq<(Seq<char>, JsonV)> {
    Seq::<(Seq<char>, JsonV)>::empty().push(("id"@, JsonV::Text(e.id))).push(
        ("thread_id"@, text_or_null(e.thread_id)),
    ).push(("from"@, addresses_json(e.from))).push(("to"@, addresses_json(e.to))).push(
        ("cc"@, addresses_json(e.cc)),
    ).push(("subject"@, text_or_null(e.subject))).push(
        ("received_at"@, text_or_null(e.received_at)),
    ).push(("sent_at"@, text_or_null(e.sent_at))).push(
        ("is_read"@, JsonV::Bool(lookup(e.keywords, "$seen"@) is Some)),
    ).push(("is_flagged"@, JsonV::Bool(lookup(e.keywords, "$flagged"@) is Some))).push(
        ("mailbox_ids"@, texts(keys_of(e.mailbox_ids))),
    ).push(("message_id"@, texts_or_null(e.message_id))).push(
        ("references"@, texts_or_null(e.references)),
    ).push(("attachments"@, parts_json(e.attachments)))
}

/// A message: what is always told, and its text and preview unless only the
/// headers are wanted.
pub open spec fn email_json(e: EmailV, headers_only: bool, max_body_chars: usize) -> JsonV {
    if headers_only {
        JsonV::Object(email_fields(e))
    } else {
        let body = limited(body_text(e), max_body_chars);
        JsonV::Object(
            email_fields(e).push(("body"@, JsonV::Text(body.0))).push(
                ("body_truncated"@, JsonV::Bool(body.1)),
            ).push(("preview"@, text_or_null(e.preview))),
        )
    }
}

/// A message.
pub fn serialize_email(e: &Email, headers_only: bool, max_body_chars: usize) -> (r: Json)
    ensures
        r.deep_view() == email_json(e.deep_view(), headers_only, max_body_chars),
{
    let mut m: Vec<(String, Json)> = no_items();
    put_field(&mut m, "id", text_of(e.id.as_str()));
    put_field(&mut m, "thread_id", text_or_null_of(&e.thread_id));
    put_field(&mut m, "from", make_addresses(&e.from));
    put_field(&mut m, "to", make_addresses(&e.to));
    put_field(&mut m, "cc", make_addresses(&e.cc));
    put_field(&mut m, "subject", text_or_null_of(&e.subject));
    put_field(&mut m, "received_at", text_or_null_of(&e.received_at));
    put_field(&mut m, "sent_at", text_or_null_of(&e.sent_at));
    put_field(&mut m, "is_read", Json::Bool(e.keywords.contains_key("$seen")));
    put_field(&mut m, "is_flagged", Json::Bool(e.keywords.contains_key("$flagged")));
    put_field(&mut m, "mailbox_ids", make_keys(&e.mailbox_ids));
    put_field(&mut m, "message_id", make_texts(&e.message_id));
    put_field(&mut m, "references", make_texts(&e.references));
    put_field(&mut m, "attachments", make_parts(&e.attachments));
    if !headers_only {
        let body = limit_text(extract_body_text(e), max_body_chars);
        put_field(&mut m, "body", Json::Text(body.0));
        put_field(&mut m, "body_truncated", Json::Bool(body.1));
        put_field(&mut m, "preview", text_or_null_of(&e.preview));
    }
    object_of(m)
}

/// Messages.
pub open spec fn emails_json(
    emails: Seq<EmailV>,
    headers_only: bool,
    max_body_chars: usize,
) -> JsonV {
    JsonV::List(emails.map_values(|e: EmailV| email_json(e, headers_only, max_body_chars)))
}

fn make_emails(emails: &Vec<Email>, headers_only: bool, max_body_chars: usize) -> (r: Json)
    ensures
        r.deep_view() == emails_json(emails.deep_view(), headers_only, max_body_chars),
{
    let f = |e: &Email| -> (o: Json)
        ensures
            o.deep_view() == email_json(e.deep_view(), headers_only, max_body_chars),
        { serialize_email(e, headers_only, max_body_chars) };
    list_map(emails, f, Ghost(|e: EmailV| email_json(e, headers_only, max_body_chars)))
}

/// A mailbox.
pub open spec fn mailbox_json(m: MailboxV) -> JsonV {
    JsonV::Object(
        Seq::empty().push(("id"@, JsonV::Text(m.id))).push(("name"@, JsonV::Text(m.name))).push(
            ("parent_id"@, text_or_null(m.parent_id)),
        ).push(("role"@, text_or_null(m.role))).push(
            ("total_emails"@, JsonV::UInt(m.total_emails as u64)),
        ).push(("unread_emails"@, JsonV::UInt(m.unread_emails as u64))).push(
            ("sort_order"@, JsonV::UInt(m.sort_order as u64)),
        ),
    )
}

/// A mailbox.
pub fn serialize_mailbox(m: &Mailbox) -> (r: Json)
    ensures
        r.deep_view() == mailbox_json(m.deep_view()),
{
    let mut v: Vec<(String, Json)> = no_items();
    put_field(&mut v, "id", text_of(m.id.as_str()));
    put_field(&mut v, "name", text_of(m.name.as_str()));
    put_field(&mut v, "parent_id", text_or_null_of(&m.parent_id));
    put_field(&mut v, "role", text_or_null_of(&m.role));
    put_field(&mut v, "total_emails", Json::UInt(m.total_emails as u64));
    put_field(&mut v, "unread_emails", Json::UInt(m.unread_emails as u64));
    put_field(&mut v, "sort_order", Json::UInt(m.sort_order as u64));
    object_of(v)
}

/// The counts of a thread.
pub open spec fn count_json(c: (usize, usize)) -> JsonV {
    JsonV::Object(
        Seq::empty().push(("unread"@, JsonV::UInt(c.0 as u64))).push(
            ("total"@, JsonV::UInt(c.1 as u64)),
        ),
    )
}

/// The counts of threads, by thread.
pub open spec fn counts_json(counts: Seq<(Seq<char>, (usize, usize))>) -> JsonV {
    JsonV::Object(
        counts.map_values(|c: (Seq<char>, (usize, usize))| (c.0, count_json(c.1))),
    )
}

fn make_counts(counts: &StrMap<(usize, usize)>) -> (r: Json)
    ensures
        r.deep_view() == counts_json(counts.deep_view()),
{
    let ghost all = counts_json(counts.deep_view())->Object_0;
    let n: usize = counts.len();
    let mut m: Vec<(String, Json)> = no_items();
    let mut i: usize = 0;
    while i < n
        invariant
            i <= n,
            n == counts.deep_view().len(),
            all == counts_json(counts.deep_view())->Object_0,
            m.deep_view() == all.take(i as int),
        decreases n - i,
    {
        let c = counts.value_at(i);
        let mut one: Vec<(String, Json)> = no_items();
        put_field(&mut one, "unread", Json::UInt(c.0 as u64));
        put_field(&mut one, "total", Json::UInt(c.1 as u64));
        put_field(&mut m, counts.key_at(i), object_of(one));
        assert(all.take(i + 1) =~= all.take(i as int).push(all[i as int]));
        i = i + 1;
    }
    assert(all.take(all.len() as int) =~= all);
    object_of(m)
}

/// An account.
pub open spec fn account_json(a: AccountConfigV) -> JsonV {
    JsonV::Object(
        Seq::empty().push(("name"@, JsonV::Text(a.name))).push(
            ("username"@, JsonV::Text(a.username)),
        ).push(("well_known_url"@, JsonV::Text(a.well_known_url))),
    )
}

fn make_account(a: &AccountConfig) -> (r: Json)
    ensures
        r.deep_view() == account_json(a.deep_view()),
{
    let mut m: Vec<(String, Json)> = no_items();
    put_field(&mut m, "name", text_of(a.name.as_str()));
    put_field(&mut m, "username", text_of(a.username.as_str()));
    put_field(&mut m, "well_known_url", text_of(a.well_known_url.as_str()));
    object_of(m)
}

/// A key.
pub open spec fn binding_json(b: KeyBindingV) -> JsonV {
    JsonV::Object(
        Seq::empty().push(("view"@, JsonV::Text(b.view))).push(("key"@, JsonV::Text(b.key))).push(
            ("action"@, JsonV::Text(b.action)),
        ).push(("description"@, JsonV::Text(b.description))),
    )
}

fn make_binding(b: &KeyBinding) -> (r: Json)
    ensures
        r.deep_view() == binding_json(b.deep_view()),
{
    let mut m: Vec<(String, Json)> = no_items();
    put_field(&mut m, "view", text_of(b.view.as_str()));
    put_field(&mut m, "key", text_of(b.key.as_str()));
    put_field(&mut m, "action", text_of(b.action.as_str()));
    put_field(&mut m, "description", text_of(b.description.as_str()));
    object_of(m)
}

/// The name of a change.
pub open spec fn action_text(a: EmailMutationAction) -> Seq<char> {
    match a {
        EmailMutationAction::MarkRead => "MarkRead"@,
        EmailMutationAction::MarkUnread => "MarkUnread"@,
        EmailMutationAction::SetFlagged(b) => if b {
            "SetFlagged(true)"@
        } else {
            "SetFlagged(false)"@
        },
        EmailMutationAction::Move => "Move"@,
        EmailMutationAction::Destroy => "Destroy"@,
    }
}

fn text_of_action(a: EmailMutationAction) -> (r: &'static str)
    ensures
        r@ == action_text(a),
{
    match a {
        EmailMutationAction::MarkRead => "MarkRead",
        EmailMutationAction::MarkUnread => "MarkUnread",
        EmailMutationAction::SetFlagged(b) => if b {
            "SetFlagged(true)"
        } else {
            "SetFlagged(false)"
        },
        EmailMutationAction::Move => "Move",
        EmailMutationAction::Destroy => "Destroy",
    }
}

/// An answer with one entry.
pub open spec fn ok_with(key: Seq<char>, value: JsonV) -> JsonV {
    ok_answer(JsonV::Object(Seq::empty().push((key, value))))
}

fn respond_with(key: &str, value: Json) -> (r: Json)
    ensures
        r.deep_view() == ok_with(key@, value.deep_view()),
{
    let mut m: Vec<(String, Json)> = no_items();
    put_field(&mut m, key, value);
    ok_response(object_of(m))
}

// ---------------------------------------------------------------------------
// Commands
// ---------------------------------------------------------------------------

/// An answer that a field is missing.
pub open spec fn missing(name: Seq<char>) -> CliStepV {
    CliStepV::Answer(err_answer("missing '"@ + name + "' field"@))
}

fn lacks(name: &str) -> (r: CliStep)
    ensures
        r.deep_view() == missing(name@),
{
    let mut s = "missing '".to_owned();
    s.append(name);
    s.append("' field");
    CliStep::Answer(err_response(s.as_str()))
}

/// A command for the backend, or an error if there is none.
pub open spec fn asked(s: CliStateV, command: BackendCommandV, waiting: WaitingV) -> CliStepV {
    if s.connected {
        CliStepV::Send { command, waiting }
    } else {
        CliStepV::Answer(err_answer("not connected"@))
    }
}

/// The state with the next number for a change.
pub open spec fn numbered(s: CliStateV) -> CliStateV {
    CliStateV { next_op_id: next_id(s.next_op_id), ..s }
}

/// The first account at or after `i` with a name, or the number of accounts.
pub open spec fn account_position(accounts: Seq<AccountConfigV>, name: Seq<char>, i: int) -> int
    decreases accounts.len() - i,
{
    if i >= accounts.len() {
        accounts.len() as int
    } else if accounts[i].name == name {
        i
    } else {
        account_position(accounts, name, i + 1)
    }
}

/// The command that connects to an account: the old connection is forgotten first.
pub open spec fn connect_step(s: CliStateV, input: JsonV) -> (CliStateV, CliStepV) {
    match text_field(input, "account"@) {
        Some(name) => {
            let i = account_position(s.accounts, name, 0);
            if i < s.accounts.len() {
                (
                    CliStateV {
                        connected: false,
                        connected_account: None,
                        connected_username: None,
                        cached_mailboxes: Seq::empty(),
                        ..s
                    },
                    CliStepV::Connect { account: s.accounts[i], shutdown: s.connected },
                )
            } else {
                (s, CliStepV::Answer(err_answer("unknown account '"@ + name + "'"@)))
            }
        },
        None => (s, missing("account"@)),
    }
}

/// The state and the answer once an account is connected, or is not.
pub open spec fn connect_done(
    s: CliStateV,
    account: AccountConfigV,
    result: Result<(), Seq<char>>,
) -> (CliStateV, JsonV) {
    match result {
        Ok(_) => (
            CliStateV {
                connected: true,
                connected_account: Some(account.name),
                connected_username: Some(account.username),
                ..s
            },
            ok_answer(
                JsonV::Object(
                    Seq::empty().push(("account"@, JsonV::Text(account.name))).push(
                        ("username"@, JsonV::Text(account.username)),
                    ),
                ),
            ),
        ),
        Err(e) => (s, err_answer("connection failed: "@ + e)),
    }
}

/// How the session stands.
pub open spec fn status_json(s: CliStateV) -> JsonV {
    ok_answer(
        JsonV::Object(
            Seq::empty().push(("connected"@, JsonV::Bool(s.connected))).push(
                ("account"@, text_or_null(s.connected_account)),
            ).push(("username"@, text_or_null(s.connected_username))).push(
                ("cached_mailboxes"@, JsonV::UInt(s.cached_mailboxes.len() as u64)),
            ),
        ),
    )
}

/// The first listed mailbox at or after `i` with an id, or the number of them.
pub open spec fn listed_position(mailboxes: Seq<MailboxV>, id: Seq<char>, i: int) -> int
    decreases mailboxes.len() - i,
{
    if i >= mailboxes.len() {
        mailboxes.len() as int
    } else if mailboxes[i].id == id {
        i
    } else {
        listed_position(mailboxes, id, i + 1)
    }
}

/// The name of a mailbox as it was last listed, or else its id.
pub open spec fn listed_name(mailboxes: Seq<MailboxV>, id: Seq<char>) -> Seq<char> {
    let i = listed_position(mailboxes, id, 0);
    if i < mailboxes.len() {
        mailboxes[i].name
    } else {
        id
    }
}

/// Whether only the headers of messages are wanted.
pub open spec fn wants_headers_only(input: JsonV) -> bool {
    bool_field(input, "headers_only"@) == Some(true)
}

/// How much of the text of messages is wanted.
pub open spec fn wanted_chars(input: JsonV) -> usize {
    match number_field(input, "max_body_chars"@) {
        Some(n) => n as usize,
        None => 0,
    }
}

/// A number of a query.
pub open spec fn query_number(input: JsonV, key: Seq<char>, default: u64) -> u32 {
    (match number_field(input, key) {
        Some(n) => n,
        None => default,
    }) as u32
}

/// The command for a change of one message.
pub open spec fn change_step(s: CliStateV, input: JsonV, kind: ChangeKind) -> (
    CliStateV,
    CliStepV,
) {
    match text_field(input, "id"@) {
        Some(id) => {
            let n = numbered(s);
            let op_id = n.next_op_id;
            (
                n,
                asked(
                    n,
                    match kind {
                        ChangeKind::Read => BackendCommandV::MarkEmailRead { op_id, id },
                        ChangeKind::Unread => BackendCommandV::MarkEmailUnread { op_id, id },
                        ChangeKind::Flag => BackendCommandV::SetEmailFlagged {
                            op_id,
                            id,
                            flagged: true,
                        },
                        ChangeKind::Unflag => BackendCommandV::SetEmailFlagged {
                            op_id,
                            id,
                            flagged: false,
                        },
                    },
                    WaitingV::Change,
                ),
            )
        },
        None => (s, missing("id"@)),
    }
}

/// The command that moves a message.
pub open spec fn move_step(s: CliStateV, id: Seq<char>, target: Seq<char>) -> (
    CliStateV,
    CliStepV,
) {
    let n = numbered(s);
    (
        n,
        asked(
            n,
            BackendCommandV::MoveEmail { op_id: n.next_op_id, id, to_mailbox_id: target },
            WaitingV::Change,
        ),
    )
}

/// The mailbox for archived messages, or that for deleted ones: the one that the
/// settings name by its id, or else the one that the folder's name resolves to.
pub open spec fn folder_target(s: CliStateV, archive: bool) -> Option<Seq<char>> {
    let id = if archive {
        s.archive_mailbox_id
    } else {
        s.deleted_mailbox_id
    };
    match id {
        Some(m) => Some(m),
        None => resolved_mailbox(
            if archive {
                s.archive_folder
            } else {
                s.deleted_folder
            },
            s.cached_mailboxes,
        ),
    }
}

/// What is said of a folder that is not there.
pub open spec fn no_folder(s: CliStateV, archive: bool) -> JsonV {
    err_answer(
        if archive {
            "cannot resolve archive folder '"@ + s.archive_folder + "'"@
        } else {
            "cannot resolve deleted folder '"@ + s.deleted_folder + "'"@
        },
    )
}

/// The command that moves messages to a mailbox: several one after the other, or
/// one by itself.
pub open spec fn moves_step(s: CliStateV, ids: Seq<Seq<char>>, target: Seq<char>, bulk: bool) -> (
    CliStateV,
    CliStepV,
) {
    if bulk || ids.len() != 1 {
        batch_step(s, items_for(ids, Some(target)), true, 0, Seq::empty(), 0)
    } else {
        move_step(s, ids[0], target)
    }
}

/// The command that moves messages to a folder of the settings. Where the folder is
/// not known, the mailboxes are listed first.
pub open spec fn folder_step(s: CliStateV, ids: Seq<Seq<char>>, archive: bool, bulk: bool) -> (
    CliStateV,
    CliStepV,
) {
    match folder_target(s, archive) {
        Some(target) => moves_step(s, ids, target, bulk),
        None => (
            s,
            asked(
                s,
                BackendCommandV::FetchMailboxes { origin: "cli"@ },
                WaitingV::Folder { ids, archive, bulk },
            ),
        ),
    }
}

/// What comes next once the mailboxes have been listed for a folder.
pub open spec fn folder_listed(
    s: CliStateV,
    ids: Seq<Seq<char>>,
    archive: bool,
    bulk: bool,
    response: BackendResponseV,
) -> (CliStateV, CliStepV) {
    match response {
        BackendResponseV::Mailboxes(Ok(ms)) => {
            let l = CliStateV { cached_mailboxes: ms, ..s };
            match folder_target(l, archive) {
                Some(target) => moves_step(l, ids, target, bulk),
                None => (l, CliStepV::Answer(no_folder(l, archive))),
            }
        },
        BackendResponseV::Mailboxes(Err(e)) => (s, CliStepV::Answer(err_answer(e))),
        _ => (s, CliStepV::Answer(unexpected())),
    }
}

/// The command that moves one message to a folder of the settings.
pub open spec fn to_folder(s: CliStateV, input: JsonV, archive: bool) -> (CliStateV, CliStepV) {
    match text_field(input, "id"@) {
        Some(id) => folder_step(s, Seq::empty().push(id), archive, false),
        None => (s, missing("id"@)),
    }
}

/// The command that moves messages to a folder of the settings.
pub open spec fn all_to_folder(s: CliStateV, input: JsonV, archive: bool) -> (CliStateV, CliStepV) {
    match ids_in(input) {
        Ok(ids) => folder_step(s, ids, archive, true),
        Err(e) => (s, CliStepV::Answer(err_answer(e))),
    }
}

/// What came of a change of one message among several.
pub open spec fn result_json(id: Seq<char>, error: Option<Seq<char>>) -> JsonV {
    match error {
        None => JsonV::Object(
            Seq::empty().push(("id"@, JsonV::Text(id))).push(("ok"@, JsonV::Bool(true))),
        ),
        Some(e) => JsonV::Object(
            Seq::empty().push(("id"@, JsonV::Text(id))).push(("ok"@, JsonV::Bool(false))).push(
                ("error"@, JsonV::Text(e)),
            ),
        ),
    }
}

/// Messages that all go to a mailbox, or that are all destroyed.
pub open spec fn items_for(ids: Seq<Seq<char>>, target: Option<Seq<char>>) -> Seq<
    (Seq<char>, Option<Seq<char>>),
> {
    ids.map_values(|id: Seq<char>| (id, target))
}

/// The command for one message among several: to destroy it, or to move it.
pub open spec fn batch_command(
    item: (Seq<char>, Option<Seq<char>>),
    op_id: u64,
) -> BackendCommandV {
    match item.1 {
        Some(to) => BackendCommandV::MoveEmail { op_id, id: item.0, to_mailbox_id: to },
        None => BackendCommandV::DestroyEmail { op_id, id: item.0 },
    }
}

/// The answer once all messages have had their turn.
pub open spec fn batch_answer(
    counted: bool,
    results: Seq<JsonV>,
    succeeded: usize,
) -> JsonV {
    let v = Seq::<(Seq<char>, JsonV)>::empty().push(("results"@, JsonV::List(results)));
    ok_answer(
        JsonV::Object(
            if counted {
                v.push(("succeeded"@, JsonV::UInt(succeeded as u64)))
            } else {
                v
            },
        ),
    )
}

/// The command that destroys or moves the messages from the one at `i` on: one
/// after the other, and then an answer with all results.
pub open spec fn batch_step(
    s: CliStateV,
    items: Seq<(Seq<char>, Option<Seq<char>>)>,
    counted: bool,
    i: int,
    results: Seq<JsonV>,
    succeeded: usize,
) -> (CliStateV, CliStepV)
    decreases items.len() - i,
{
    if i >= items.len() {
        (s, CliStepV::Answer(batch_answer(counted, results, succeeded)))
    } else {
        let n = numbered(s);
        if s.connected {
            (
                n,
                CliStepV::Send {
                    command: batch_command(items[i], n.next_op_id),
                    waiting: WaitingV::Batch {
                        items,
                        counted,
                        at: i as usize,
                        results,
                        succeeded,
                    },
                },
            )
        } else {
            batch_step(
                n,
                items,
                counted,
                i + 1,
                results.push(result_json(items[i].0, Some("not connected"@))),
                succeeded,
            )
        }
    }
}

/// The messages among the first `k` for which the rules suggest an action.
pub open spec fn suggested_upto(
    s: CliStateV,
    emails: Seq<EmailV>,
    action: TriageHintActionDef,
    k: int,
) -> Seq<EmailV>
    decreases k,
{
    if k <= 0 {
        Seq::empty()
    } else {
        let before = suggested_upto(s, emails, action, k - 1);
        if suggestion_from(s.rules, emails[k - 1], s.my_email_regex, 0).0 == action {
            before.push(emails[k - 1])
        } else {
            before
        }
    }
}

/// The messages for which the rules suggest an action.
pub open spec fn suggested(
    s: CliStateV,
    emails: Seq<EmailV>,
    action: TriageHintActionDef,
) -> Seq<EmailV> {
    suggested_upto(s, emails, action, emails.len() as int)
}

/// What is told of a message that something is suggested for.
pub open spec fn candidate_json(s: CliStateV, e: EmailV) -> JsonV {
    JsonV::Object(
        Seq::empty().push(("id"@, JsonV::Text(e.id))).push(("subject"@, text_or_null(e.subject)))
            .push(
            (
                "reason"@,
                JsonV::Text(suggestion_from(s.rules, e, s.my_email_regex, 0).1),
            ),
        ),
    )
}

/// The name of the next proposal.
pub open spec fn next_plan(s: CliStateV) -> Seq<char> {
    "plan-"@ + decimal(s.plans.len())
}

/// The state once the messages to be proposed for have come, with the proposal, and
/// the answer that tells of it. Nothing is changed by it.
pub open spec fn plan_made(s: CliStateV, response: BackendResponseV) -> (CliStateV, CliStepV) {
    match response {
        BackendResponseV::Emails { emails: Ok(emails), .. } => {
            let archive = suggested(s, emails, TriageHintActionDef::Archive);
            let trash = suggested(s, emails, TriageHintActionDef::Trash);
            let keep = suggested(s, emails, TriageHintActionDef::Keep);
            let told = |e: EmailV| candidate_json(s, e);
            (
                CliStateV {
                    plans: s.plans.push(
                        TriagePlanV {
                            id: next_plan(s),
                            archive: archive.map_values(|e: EmailV| e.id),
                            trash: trash.map_values(|e: EmailV| e.id),
                        },
                    ),
                    ..s
                },
                CliStepV::Answer(
                    ok_answer(
                        JsonV::Object(
                            Seq::empty().push(("plan_id"@, JsonV::Text(next_plan(s)))).push(
                                ("archive"@, JsonV::List(archive.map_values(told))),
                            ).push(("trash"@, JsonV::List(trash.map_values(told)))).push(
                                ("keep"@, JsonV::List(keep.map_values(told))),
                            ),
                        ),
                    ),
                ),
            )
        },
        BackendResponseV::Emails { emails: Err(e), .. } => (s, CliStepV::Answer(err_answer(e))),
        _ => (s, CliStepV::Answer(unexpected())),
    }
}

/// The first proposal at or after `i` with a name, or the number of proposals.
pub open spec fn plan_position(plans: Seq<TriagePlanV>, id: Seq<char>, i: int) -> int
    decreases plans.len() - i,
{
    if i >= plans.len() {
        plans.len() as int
    } else if plans[i].id == id {
        i
    } else {
        plan_position(plans, id, i + 1)
    }
}

/// Whether the folders that a proposal needs are known.
pub open spec fn plan_ready(
    s: CliStateV,
    archive: Seq<Seq<char>>,
    trash: Seq<Seq<char>>,
) -> bool {
    &&& archive.len() > 0 ==> folder_target(s, true) is Some
    &&& trash.len() > 0 ==> folder_target(s, false) is Some
}

/// The messages of a proposal, each with the mailbox that it goes to.
pub open spec fn plan_items(
    s: CliStateV,
    archive: Seq<Seq<char>>,
    trash: Seq<Seq<char>>,
) -> Seq<(Seq<char>, Option<Seq<char>>)> {
    items_for(archive, folder_target(s, true)) + items_for(trash, folder_target(s, false))
}

/// The command that carries out a proposal: its messages are moved one after the
/// other. Where a folder is not known, the mailboxes are listed first.
pub open spec fn apply_step(s: CliStateV, input: JsonV) -> (CliStateV, CliStepV) {
    match text_field(input, "plan_id"@) {
        None => (s, missing("plan_id"@)),
        Some(id) => {
            let i = plan_position(s.plans, id, 0);
            if i >= s.plans.len() {
                (s, CliStepV::Answer(err_answer("unknown plan '"@ + id + "'"@)))
            } else {
                let p = s.plans[i];
                if plan_ready(s, p.archive, p.trash) {
                    batch_step(s, plan_items(s, p.archive, p.trash), true, 0, Seq::empty(), 0)
                } else {
                    (
                        s,
                        asked(
                            s,
                            BackendCommandV::FetchMailboxes { origin: "cli"@ },
                            WaitingV::Plan { archive: p.archive, trash: p.trash },
                        ),
                    )
                }
            }
        },
    }
}

/// What comes next once the mailboxes have been listed for a proposal.
pub open spec fn plan_listed(
    s: CliStateV,
    archive: Seq<Seq<char>>,
    trash: Seq<Seq<char>>,
    response: BackendResponseV,
) -> (CliStateV, CliStepV) {
    match response {
        BackendResponseV::Mailboxes(Ok(ms)) => {
            let l = CliStateV { cached_mailboxes: ms, ..s };
            if plan_ready(l, archive, trash) {
                batch_step(l, plan_items(l, archive, trash), true, 0, Seq::empty(), 0)
            } else {
                (
                    l,
                    CliStepV::Answer(
                        no_folder(l, archive.len() > 0 && folder_target(l, true) is None),
                    ),
                )
            }
        },
        BackendResponseV::Mailboxes(Err(e)) => (s, CliStepV::Answer(err_answer(e))),
        _ => (s, CliStepV::Answer(unexpected())),
    }
}

/// The texts among the first `k` values, if all are texts.
pub open spec fn all_texts(list: Seq<JsonV>, k: int) -> Option<Seq<Seq<char>>>
    decreases k,
{
    if k <= 0 {
        Some(Seq::empty())
    } else {
        match (all_texts(list, k - 1), list[k - 1]) {
            (Some(before), JsonV::Text(s)) => Some(before.push(s)),
            _ => None,
        }
    }
}

/// The ids of the messages that a command is about: a list of them, or one.
pub open spec fn ids_in(input: JsonV) -> Result<Seq<Seq<char>>, Seq<char>> {
    match field(input, "ids"@) {
        Some(JsonV::List(list)) => match all_texts(list, list.len() as int) {
            Some(ids) => Ok(ids),
            None => Err("'ids' must be an array of strings"@),
        },
        _ => match text_field(input, "id"@) {
            Some(id) => Ok(Seq::empty().push(id)),
            None => Err("missing 'ids' or 'id' field"@),
        },
    }
}

/// The command that destroys messages.
pub open spec fn destroy_command(s: CliStateV, input: JsonV) -> (CliStateV, CliStepV) {
    match ids_in(input) {
        Ok(ids) => batch_step(s, items_for(ids, None), false, 0, Seq::empty(), 0),
        Err(e) => (s, CliStepV::Answer(err_answer(e))),
    }
}

/// The user that drafts are from.
pub open spec fn draft_from(s: CliStateV) -> Seq<char> {
    match s.connected_username {
        Some(u) => u,
        None => "user@example.com"@,
    }
}

/// The command for what one field says.
pub open spec fn field_step(s: CliStateV, input: JsonV, key: Seq<char>, command: Seq<char>)
    -> CliStepV {
    match text_field(input, key) {
        Some(x) => if command == "create_mailbox"@ {
            asked(s, BackendCommandV::CreateMailbox { name: x }, WaitingV::Created)
        } else if command == "delete_mailbox"@ {
            asked(
                s,
                BackendCommandV::DeleteMailbox { id: x, name: listed_name(s.cached_mailboxes, x) },
                WaitingV::Deleted,
            )
        } else if command == "query_emails"@ {
            asked(
                s,
                BackendCommandV::QueryEmails {
                    origin: "cli"@,
                    mailbox_id: x,
                    page_size: query_number(input, "limit"@, 50),
                    position: query_number(input, "position"@, 0),
                    search_query: text_field(input, "search"@),
                    received_after: text_field(input, "received_after"@),
                    received_before: text_field(input, "received_before"@),
                },
                WaitingV::Query {
                    headers_only: wants_headers_only(input),
                    max_body_chars: wanted_chars(input),
                },
            )
        } else if command == "triage_suggest"@ {
            asked(
                s,
                BackendCommandV::QueryEmails {
                    origin: "cli"@,
                    mailbox_id: x,
                    page_size: query_number(input, "limit"@, 50),
                    position: 0,
                    search_query: None,
                    received_after: text_field(input, "received_after"@),
                    received_before: text_field(input, "received_before"@),
                },
                WaitingV::Suggest,
            )
        } else if command == "get_email"@ {
            asked(
                s,
                BackendCommandV::GetEmail { id: x },
                WaitingV::Email {
                    headers_only: wants_headers_only(input),
                    max_body_chars: wanted_chars(input),
                },
            )
        } else if command == "get_thread"@ {
            asked(
                s,
                BackendCommandV::QueryThreadEmails { thread_id: x },
                WaitingV::Thread {
                    thread_id: x,
                    headers_only: wants_headers_only(input),
                    max_body_chars: wanted_chars(input),
                },
            )
        } else if command == "mark_mailbox_read"@ {
            asked(
                s,
                BackendCommandV::MarkMailboxRead {
                    mailbox_id: x,
                    mailbox_name: listed_name(s.cached_mailboxes, x),
                },
                WaitingV::MailboxRead,
            )
        } else if command == "get_raw_headers"@ {
            asked(s, BackendCommandV::GetEmailRawHeaders { id: x }, WaitingV::RawHeaders)
        } else if command == "reply_draft"@ {
            asked(
                s,
                BackendCommandV::GetEmailForReply { id: x },
                WaitingV::Reply { all: bool_field(input, "reply_all"@) == Some(true) },
            )
        } else if command == "forward_draft"@ {
            asked(s, BackendCommandV::GetEmailForReply { id: x }, WaitingV::Forward)
        } else {
            asked(
                s,
                BackendCommandV::DownloadAttachment {
                    blob_id: x,
                    name: match text_field(input, "name"@) {
                        Some(n) => n,
                        None => "attachment"@,
                    },
                    content_type: match text_field(input, "content_type"@) {
                        Some(t) => t,
                        None => "application/octet-stream"@,
                    },
                },
                WaitingV::Attachment,
            )
        },
        None => missing(key),
    }
}

/// The state after a command, and what comes next.
pub open spec fn dispatched(s: CliStateV, input: JsonV) -> (CliStateV, CliStepV) {
    match text_field(input, "command"@) {
        None => (s, missing("command"@)),
        Some(c) => if c == "list_accounts"@ {
            (
                s,
                CliStepV::Answer(
                    ok_with(
                        "accounts"@,
                        JsonV::List(s.accounts.map_values(|a: AccountConfigV| account_json(a))),
                    ),
                ),
            )
        } else if c == "connect"@ {
            connect_step(s, input)
        } else if c == "status"@ {
            (s, CliStepV::Answer(status_json(s)))
        } else if c == "list_mailboxes"@ {
            (
                s,
                asked(s, BackendCommandV::FetchMailboxes { origin: "cli"@ }, WaitingV::Mailboxes),
            )
        } else if c == "create_mailbox"@ {
            (s, field_step(s, input, "name"@, c))
        } else if c == "delete_mailbox"@ || c == "query_emails"@ || c == "mark_mailbox_read"@ {
            (s, field_step(s, input, "mailbox_id"@, c))
        } else if c == "get_email"@ || c == "get_raw_headers"@ || c == "reply_draft"@ || c
            == "forward_draft"@ {
            (s, field_step(s, input, "id"@, c))
        } else if c == "get_thread"@ {
            (s, field_step(s, input, "thread_id"@, c))
        } else if c == "download_attachment"@ {
            (s, field_step(s, input, "blob_id"@, c))
        } else if c == "mark_read"@ {
            change_step(s, input, ChangeKind::Read)
        } else if c == "mark_unread"@ {
            change_step(s, input, ChangeKind::Unread)
        } else if c == "flag"@ {
            change_step(s, input, ChangeKind::Flag)
        } else if c == "unflag"@ {
            change_step(s, input, ChangeKind::Unflag)
        } else if c == "move_email"@ {
            match (text_field(input, "id"@), text_field(input, "to_mailbox_id"@)) {
                (Some(id), Some(target)) => move_step(s, id, target),
                (None, _) => (s, missing("id"@)),
                (Some(_), None) => (s, missing("to_mailbox_id"@)),
            }
        } else if c == "archive"@ {
            to_folder(s, input, true)
        } else if c == "delete_email"@ {
            to_folder(s, input, false)
        } else if c == "bulk_archive"@ {
            all_to_folder(s, input, true)
        } else if c == "bulk_delete_email"@ {
            all_to_folder(s, input, false)
        } else if c == "triage_suggest"@ {
            (s, field_step(s, input, "mailbox_id"@, c))
        } else if c == "apply_triage_plan"@ {
            apply_step(s, input)
        } else if c == "destroy"@ {
            destroy_command(s, input)
        } else if c == "compose_draft"@ {
            (
                s,
                CliStepV::Answer(
                    ok_with("draft"@, JsonV::Text(compose_draft(draft_from(s)))),
                ),
            )
        } else if c == "keybindings"@ {
            (
                s,
                CliStepV::Answer(
                    ok_with(
                        "keybindings"@,
                        JsonV::List(s.bindings.map_values(|b: KeyBindingV| binding_json(b))),
                    ),
                ),
            )
        } else {
            (s, CliStepV::Answer(err_answer("unknown command '"@ + c + "'"@)))
        },
    }
}

// ---------------------------------------------------------------------------
// Responses
// ---------------------------------------------------------------------------

/// An answer that the backend answered something else.
pub open spec fn unexpected() -> JsonV {
    err_answer("unexpected response from backend"@)
}

/// An answer with a name, or with an error.
pub open spec fn name_or_error(name: Seq<char>, result: Result<(), Seq<char>>) -> JsonV {
    match result {
        Ok(_) => ok_with("name"@, JsonV::Text(name)),
        Err(e) => err_answer(e),
    }
}

/// The answer to a query.
pub open spec fn query_json(
    emails: Seq<EmailV>,
    total: Option<u32>,
    position: u32,
    loaded: u32,
    counts: Seq<(Seq<char>, (usize, usize))>,
    headers_only: bool,
    max_body_chars: usize,
) -> JsonV {
    ok_answer(
        JsonV::Object(
            Seq::empty().push(
                ("emails"@, emails_json(emails, headers_only, max_body_chars)),
            ).push(
                (
                    "total"@,
                    match total {
                        Some(n) => JsonV::UInt(n as u64),
                        None => JsonV::Null,
                    },
                ),
            ).push(("position"@, JsonV::UInt(position as u64))).push(
                ("loaded"@, JsonV::UInt(loaded as u64)),
            ).push(("thread_counts"@, counts_json(counts))),
        ),
    )
}

/// Whether a response says that a change was made.
pub open spec fn is_done(response: BackendResponseV) -> bool {
    match response {
        BackendResponseV::EmailMutation { result, .. } => result is Ok,
        _ => false,
    }
}

/// What came of a change of one message among several, as its response says.
pub open spec fn outcome_json(id: Seq<char>, response: BackendResponseV) -> JsonV {
    match response {
        BackendResponseV::EmailMutation { id, result, .. } => match result {
            Ok(_) => result_json(id, None),
            Err(e) => result_json(id, Some(e)),
        },
        _ => result_json(id, Some("unexpected response"@)),
    }
}

/// The answer to a command, from the response of the backend.
pub open spec fn answered(s: CliStateV, waiting: WaitingV, response: BackendResponseV) -> JsonV {
    match (waiting, response) {
        (WaitingV::Mailboxes, BackendResponseV::Mailboxes(result)) => match result {
            Ok(ms) => ok_with(
                "mailboxes"@,
                JsonV::List(ms.map_values(|m: MailboxV| mailbox_json(m))),
            ),
            Err(e) => err_answer(e),
        },
        (WaitingV::Created, BackendResponseV::MailboxCreated { name, result }) => name_or_error(
            name,
            result,
        ),
        (WaitingV::Deleted, BackendResponseV::MailboxDeleted { name, result }) => name_or_error(
            name,
            result,
        ),
        (
            WaitingV::Query { headers_only, max_body_chars },
            BackendResponseV::Emails { emails, total, position, loaded, thread_counts, .. },
        ) => match emails {
            Ok(list) => query_json(
                list,
                total,
                position,
                loaded,
                thread_counts,
                headers_only,
                max_body_chars,
            ),
            Err(e) => err_answer(e),
        },
        (
            WaitingV::Email { headers_only, max_body_chars },
            BackendResponseV::EmailBody { result, .. },
        ) => match result {
            Ok(e) => ok_answer(email_json(e, headers_only, max_body_chars)),
            Err(e) => err_answer(e),
        },
        (
            WaitingV::Thread { thread_id, headers_only, max_body_chars },
            BackendResponseV::ThreadEmails { emails, .. },
        ) => match emails {
            Ok(list) => ok_answer(
                JsonV::Object(
                    Seq::empty().push(("thread_id"@, JsonV::Text(thread_id))).push(
                        ("emails"@, emails_json(list, headers_only, max_body_chars)),
                    ),
                ),
            ),
            Err(e) => err_answer(e),
        },
        (WaitingV::Change, BackendResponseV::EmailMutation { op_id, id, action, result }) => match result {
            Ok(_) => ok_answer(
                JsonV::Object(
                    Seq::empty().push(("op_id"@, JsonV::UInt(op_id))).push(
                        ("id"@, JsonV::Text(id)),
                    ).push(("action"@, JsonV::Text(action_text(action)))),
                ),
            ),
            Err(e) => err_answer(e),
        },
        (
            WaitingV::MailboxRead,
            BackendResponseV::MailboxMarkedRead { mailbox_name, updated, result, .. },
        ) => match result {
            Ok(_) => ok_answer(
                JsonV::Object(
                    Seq::empty().push(("mailbox_name"@, JsonV::Text(mailbox_name))).push(
                        ("updated"@, JsonV::UInt(updated as u64)),
                    ),
                ),
            ),
            Err(e) => err_answer(e),
        },
        (WaitingV::RawHeaders, BackendResponseV::EmailRawHeaders { result, .. }) => match result {
            Ok(h) => ok_with("headers"@, JsonV::Text(h)),
            Err(e) => err_answer(e),
        },
        (WaitingV::Attachment, BackendResponseV::AttachmentDownloaded { name, result }) => match result {
            Ok(path) => ok_answer(
                JsonV::Object(
                    Seq::empty().push(("name"@, JsonV::Text(name))).push(
                        ("path"@, JsonV::Text(path)),
                    ),
                ),
            ),
            Err(e) => err_answer(e),
        },
        (WaitingV::Reply { all }, BackendResponseV::EmailForReply { result, .. }) => match result {
            Ok(e) => ok_with("draft"@, JsonV::Text(reply_draft(e, all, draft_from(s)))),
            Err(e) => err_answer(e),
        },
        (WaitingV::Forward, BackendResponseV::EmailForReply { result, .. }) => match result {
            Ok(e) => ok_with("draft"@, JsonV::Text(forward_draft(e, draft_from(s)))),
            Err(e) => err_answer(e),
        },
        _ => unexpected(),
    }
}

/// The state after a response to what was waited for, and what comes next.
pub open spec fn responded(s: CliStateV, waiting: WaitingV, response: BackendResponseV) -> (
    CliStateV,
    CliStepV,
) {
    match waiting {
        WaitingV::Batch { items, counted, at, results, succeeded } => batch_step(
            s,
            items,
            counted,
            at + 1,
            results.push(outcome_json(items[at as int].0, response)),
            if is_done(response) && succeeded < usize::MAX {
                (succeeded + 1) as usize
            } else {
                succeeded
            },
        ),
        WaitingV::Folder { ids, archive, bulk } => folder_listed(s, ids, archive, bulk, response),
        WaitingV::Suggest => plan_made(s, response),
        WaitingV::Plan { archive, trash } => plan_listed(s, archive, trash, response),
        _ => (
            match (waiting, response) {
                (WaitingV::Mailboxes, BackendResponseV::Mailboxes(Ok(ms))) => CliStateV {
                    cached_mailboxes: ms,
                    ..s
                },
                _ => s,
            },
            CliStepV::Answer(answered(s, waiting, response)),
        ),
    }
}

/// The state after the backend is gone while something is waited for, and what
/// comes next.
pub open spec fn broken_off(
    s: CliStateV,
    waiting: WaitingV,
    e: Seq<char>,
) -> (CliStateV, CliStepV) {
    match waiting {
        WaitingV::Batch { items, counted, at, results, succeeded } => batch_step(
            s,
            items,
            counted,
            at + 1,
            results.push(result_json(items[at as int].0, Some(e))),
            succeeded,
        ),
        _ => (s, CliStepV::Answer(err_answer(e))),
    }
}

/// Whether something that is waited for can be: of several messages one is at the
/// place where the session stands.
pub open spec fn waiting_ok(w: WaitingV) -> bool {
    match w {
        WaitingV::Batch { items, at, .. } => at < items.len(),
        _ => true,
    }
}

/// Whether what is to be waited for can be.
pub open spec fn step_ok(step: CliStepV) -> bool {
    match step {
        CliStepV::Send { waiting, .. } => waiting_ok(waiting),
        _ => true,
    }
}

// ---------------------------------------------------------------------------
// The session
// ---------------------------------------------------------------------------

/// A change of one message.
#[derive(Debug, Clone, Copy, PartialEq, Eq, Structural)]
pub enum ChangeKind {
    Read,
    Unread,
    Flag,
    Unflag,
}

/// What the session does with a command that has been read, or that could not be
/// read.
pub open spec fn input_taken(s: CliStateV, input: Result<JsonV, Seq<char>>) -> (
    CliStateV,
    CliStepV,
) {
    match input {
        Ok(j) => dispatched(s, j),
        Err(e) => (s, CliStepV::Answer(err_answer("JSON parse error: "@ + e))),
    }
}

impl CliState {
    /// A session that is not connected.
    pub fn new(
        accounts: Vec<AccountConfig>,
        archive_folder: String,
        deleted_folder: String,
        archive_mailbox_id: Option<String>,
        deleted_mailbox_id: Option<String>,
        bindings: Vec<KeyBinding>,
        rules: Vec<CompiledRule>,
        my_email_regex: Regex,
    ) -> (r: CliState)
        ensures
            r.deep_view() == (CliStateV {
                accounts: accounts.deep_view(),
                connected: false,
                connected_account: None,
                connected_username: None,
                cached_mailboxes: Seq::empty(),
                next_op_id: 0,
                archive_folder: archive_folder@,
                deleted_folder: deleted_folder@,
                archive_mailbox_id: archive_mailbox_id.deep_view(),
                deleted_mailbox_id: deleted_mailbox_id.deep_view(),
                bindings: bindings.deep_view(),
                rules: rules.deep_view(),
                my_email_regex,
                plans: Seq::empty(),
            }),
    {
        let cached_mailboxes: Vec<Mailbox> = no_items();
        let plans: Vec<TriagePlan> = no_items();
        CliState {
            accounts,
            connected: false,
            connected_account: None,
            connected_username: None,
            cached_mailboxes,
            next_op_id: 0,
            archive_folder,
            deleted_folder,
            archive_mailbox_id,
            deleted_mailbox_id,
            bindings,
            rules,
            my_email_regex,
            plans,
        }
    }

    fn next_op_id(&mut self) -> (r: u64)
        ensures
            final(self).deep_view() == numbered(old(self).deep_view()),
            r == final(self).deep_view().next_op_id,
    {
        self.next_op_id = if self.next_op_id == u64::MAX {
            0
        } else {
            self.next_op_id + 1
        };
        self.next_op_id
    }

    fn ask(&self, command: BackendCommand, waiting: Waiting) -> (r: CliStep)
        ensures
            r.deep_view() == asked(self.deep_view(), command.deep_view(), waiting.deep_view()),
    {
        if self.connected {
            CliStep::Send { command, waiting }
        } else {
            CliStep::Answer(err_response("not connected"))
        }
    }

    fn connect(&mut self, input: &Json) -> (r: CliStep)
        ensures
            (final(self).deep_view(), r.deep_view()) == connect_step(
                old(self).deep_view(),
                input.deep_view(),
            ),
    {
        let name = match input.get_text("account") {
            Some(n) => n,
            None => {
                return lacks("account");
            },
        };
        let ghost av = self.accounts.deep_view();
        let mut i: usize = 0;
        while i < self.accounts.len()
            invariant
                i <= self.accounts@.len(),
                av == self.accounts.deep_view(),
                account_position(av, name@, 0) == account_position(av, name@, i as int),
                self.deep_view() == old(self).deep_view(),
                text_field(input.deep_view(), "account"@) == Some(name@),
            decreases self.accounts@.len() - i,
        {
            if same(at(self.accounts.as_slice(), i).name.as_str(), name.as_str()) {
                let account = at(self.accounts.as_slice(), i).dup();
                let shutdown = self.connected;
                self.connected = false;
                self.connected_account = None;
                self.connected_username = None;
                let none: Vec<Mailbox> = no_items();
                self.cached_mailboxes = none;
                return CliStep::Connect { account, shutdown };
            }
            i = i + 1;
        }
        let mut s = "unknown account '".to_owned();
        s.append(name.as_str());
        s.append("'");
        CliStep::Answer(err_response(s.as_str()))
    }

    /// Takes the outcome of a connection; gives the answer.
    pub fn on_connected(
        &mut self,
        account: &AccountConfig,
        result: &Result<(), String>,
    ) -> (r: Json)
        ensures
            (final(self).deep_view(), r.deep_view()) == connect_done(
                old(self).deep_view(),
                account.deep_view(),
                match result {
                    Ok(_) => Ok(()),
                    Err(e) => Err(e@),
                },
            ),
    {
        match result {
            Ok(_) => {
                self.connected = true;
                self.connected_account = Some(account.name.clone());
                self.connected_username = Some(account.username.clone());
                let mut m: Vec<(String, Json)> = no_items();
                put_field(&mut m, "account", text_of(account.name.as_str()));
                put_field(&mut m, "username", text_of(account.username.as_str()));
                ok_response(object_of(m))
            },
            Err(e) => {
                let mut s = "connection failed: ".to_owned();
                s.append(e.as_str());
                err_response(s.as_str())
            },
        }
    }

    fn status(&self) -> (r: Json)
        ensures
            r.deep_view() == status_json(self.deep_view()),
    {
        let mut m: Vec<(String, Json)> = no_items();
        put_field(&mut m, "connected", Json::Bool(self.connected));
        put_field(&mut m, "account", text_or_null_of(&self.connected_account));
        put_field(&mut m, "username", text_or_null_of(&self.connected_username));
        put_field(&mut m, "cached_mailboxes", Json::UInt(self.cached_mailboxes.len() as u64));
        ok_response(object_of(m))
    }

    fn name_of(&self, id: &str) -> (r: String)
        ensures
            r@ == listed_name(self.deep_view().cached_mailboxes, id@),
    {
        let ghost mv = self.cached_mailboxes.deep_view();
        let mut i: usize = 0;
        while i < self.cached_mailboxes.len()
            invariant
                i <= self.cached_mailboxes@.len(),
                mv == self.cached_mailboxes.deep_view(),
                listed_position(mv, id@, 0) == listed_position(mv, id@, i as int),
            decreases self.cached_mailboxes@.len() - i,
        {
            let m = at(self.cached_mailboxes.as_slice(), i);
            if same(m.id.as_str(), id) {
                return m.name.clone();
            }
            i = i + 1;
        }
        id.to_owned()
    }

    fn change(&mut self, input: &Json, kind: ChangeKind) -> (r: CliStep)
        ensures
            (final(self).deep_view(), r.deep_view()) == change_step(
                old(self).deep_view(),
                input.deep_view(),
                kind,
            ),
    {
        let id = match input.get_text("id") {
            Some(id) => id,
            None => {
                return lacks("id");
            },
        };
        let op_id: u64 = self.next_op_id();
        let command = match kind {
            ChangeKind::Read => BackendCommand::MarkEmailRead { op_id, id },
            ChangeKind::Unread => BackendCommand::MarkEmailUnread { op_id, id },
            ChangeKind::Flag => BackendCommand::SetEmailFlagged { op_id, id, flagged: true },
            ChangeKind::Unflag => BackendCommand::SetEmailFlagged { op_id, id, flagged: false },
        };
        self.ask(command, Waiting::Change)
    }

    fn move_to(&mut self, id: String, target: String) -> (r: CliStep)
        ensures
            (final(self).deep_view(), r.deep_view()) == move_step(
                old(self).deep_view(),
                id@,
                target@,
            ),
    {
        let op_id: u64 = self.next_op_id();
        self.ask(BackendCommand::MoveEmail { op_id, id, to_mailbox_id: target }, Waiting::Change)
    }

    fn target(&self, archive: bool) -> (r: Option<String>)
        ensures
            r.deep_view() == folder_target(self.deep_view(), archive),
    {
        let id = if archive {
            &self.archive_mailbox_id
        } else {
            &self.deleted_mailbox_id
        };
        match id {
            Some(m) => Some(m.clone()),
            None => resolve_mailbox_id(
                if archive {
                    self.archive_folder.as_str()
                } else {
                    self.deleted_folder.as_str()
                },
                self.cached_mailboxes.as_slice(),
            ),
        }
    }

    fn move_all(&mut self, ids: Vec<String>, target: String, bulk: bool) -> (r: CliStep)
        ensures
            (final(self).deep_view(), r.deep_view()) == moves_step(
                old(self).deep_view(),
                ids.deep_view(),
                target@,
                bulk,
            ),
            step_ok(r.deep_view()),
    {
        if bulk || ids.len() != 1 {
            let none: Vec<Json> = no_items();
            self.batch(make_items(&ids, &Some(target)), true, 0, none, 0)
        } else {
            let id = at(ids.as_slice(), 0).clone();
            self.move_to(id, target)
        }
    }

    fn move_to_folder(&mut self, ids: Vec<String>, archive: bool, bulk: bool) -> (r: CliStep)
        ensures
            (final(self).deep_view(), r.deep_view()) == folder_step(
                old(self).deep_view(),
                ids.deep_view(),
                archive,
                bulk,
            ),
            step_ok(r.deep_view()),
    {
        match self.target(archive) {
            Some(target) => self.move_all(ids, target, bulk),
            None => self.ask(
                BackendCommand::FetchMailboxes { origin: "cli".to_owned() },
                Waiting::Folder { ids, archive, bulk },
            ),
        }
    }

    fn take_folders(
        &mut self,
        ids: Vec<String>,
        archive: bool,
        bulk: bool,
        response: &BackendResponse,
    ) -> (r: CliStep)
        ensures
            (final(self).deep_view(), r.deep_view()) == folder_listed(
                old(self).deep_view(),
                ids.deep_view(),
                archive,
                bulk,
                response.deep_view(),
            ),
            step_ok(r.deep_view()),
    {
        match response {
            BackendResponse::Mailboxes(Ok(ms)) => {
                self.cached_mailboxes = ms.dup();
                match self.target(archive) {
                    Some(target) => self.move_all(ids, target, bulk),
                    None => CliStep::Answer(self.no_such_folder(archive)),
                }
            },
            BackendResponse::Mailboxes(Err(e)) => CliStep::Answer(err_response(e.as_str())),
            _ => CliStep::Answer(err_response("unexpected response from backend")),
        }
    }

    fn to_folder(&mut self, input: &Json, archive: bool) -> (r: CliStep)
        ensures
            (final(self).deep_view(), r.deep_view()) == to_folder(
                old(self).deep_view(),
                input.deep_view(),
                archive,
            ),
            step_ok(r.deep_view()),
    {
        match input.get_text("id") {
            Some(id) => {
                let mut ids: Vec<String> = no_items();
                put(&mut ids, id);
                self.move_to_folder(ids, archive, false)
            },
            None => lacks("id"),
        }
    }

    fn all_to_folder(&mut self, input: &Json, archive: bool) -> (r: CliStep)
        ensures
            (final(self).deep_view(), r.deep_view()) == all_to_folder(
                old(self).deep_view(),
                input.deep_view(),
                archive,
            ),
            step_ok(r.deep_view()),
    {
        match read_ids(input) {
            Ok(ids) => self.move_to_folder(ids, archive, true),
            Err(e) => CliStep::Answer(err_response(e.as_str())),
        }
    }

    fn batch(
        &mut self,
        items: Vec<(String, Option<String>)>,
        counted: bool,
        start: usize,
        results: Vec<Json>,
        succeeded: usize,
    ) -> (r: CliStep)
        ensures
            (final(self).deep_view(), r.deep_view()) == batch_step(
                old(self).deep_view(),
                items.deep_view(),
                counted,
                start as int,
                results.deep_view(),
                succeeded,
            ),
            step_ok(r.deep_view()),
    {
        let ghost s = self.deep_view();
        let ghost iv = items.deep_view();
        let ghost rv = results.deep_view();
        let n: usize = items.len();
        let mut done = results;
        let mut i: usize = start;
        while i < n
            invariant
                n == items@.len(),
                iv == items.deep_view(),
                s == old(self).deep_view(),
                rv == results.deep_view(),
                batch_step(s, iv, counted, start as int, rv, succeeded) == batch_step(
                    self.deep_view(),
                    iv,
                    counted,
                    i as int,
                    done.deep_view(),
                    succeeded,
                ),
            decreases n - i,
        {
            let op_id: u64 = self.next_op_id();
            let item = at(items.as_slice(), i);
            let id = item.0.clone();
            if self.connected {
                let command = match &item.1 {
                    Some(to) => BackendCommand::MoveEmail {
                        op_id,
                        id,
                        to_mailbox_id: to.clone(),
                    },
                    None => BackendCommand::DestroyEmail { op_id, id },
                };
                return CliStep::Send {
                    command,
                    waiting: Waiting::Batch { items, counted, at: i, results: done, succeeded },
                };
            }
            put(&mut done, make_result(id.as_str(), Some("not connected")));
            i = i + 1;
        }
        let mut m: Vec<(String, Json)> = no_items();
        put_field(&mut m, "results", list_of(done));
        if counted {
            put_field(&mut m, "succeeded", Json::UInt(succeeded as u64));
        }
        CliStep::Answer(ok_response(object_of(m)))
    }

    fn pick(&self, emails: &Vec<Email>, action: TriageHintActionDef) -> (r: (Vec<String>, Json))
        ensures
            ({
                let s = self.deep_view();
                let found = suggested(s, emails.deep_view(), action);
                &&& r.0.deep_view() == found.map_values(|e: EmailV| e.id)
                &&& r.1.deep_view() == JsonV::List(
                    found.map_values(|e: EmailV| candidate_json(s, e)),
                )
            }),
    {
        let ghost s = self.deep_view();
        let ghost ev = emails.deep_view();
        let ghost told = |e: EmailV| candidate_json(s, e);
        let ghost named = |e: EmailV| e.id;
        let mut ids: Vec<String> = no_items();
        let mut list: Vec<Json> = no_items();
        let mut i: usize = 0;
        proof {
            assert(ids.deep_view() =~= Seq::<EmailV>::empty().map_values(named));
            assert(list.deep_view() =~= Seq::<EmailV>::empty().map_values(told));
        }
        while i < emails.len()
            invariant
                i <= emails@.len(),
                s == self.deep_view(),
                ev == emails.deep_view(),
                told == (|e: EmailV| candidate_json(s, e)),
                named == (|e: EmailV| e.id),
                ids.deep_view() == suggested_upto(s, ev, action, i as int).map_values(named),
                list.deep_view() == suggested_upto(s, ev, action, i as int).map_values(told),
            decreases emails@.len() - i,
        {
            let e = at(emails.as_slice(), i);
            let ghost before = suggested_upto(s, ev, action, i as int);
            let (kind, reason) = suggest(self.rules.as_slice(), e, &self.my_email_regex);
            if kind == action {
                let mut m: Vec<(String, Json)> = no_items();
                put_field(&mut m, "id", text_of(e.id.as_str()));
                put_field(&mut m, "subject", text_or_null_of(&e.subject));
                put_field(&mut m, "reason", Json::Text(reason));
                put(&mut ids, e.id.clone());
                put(&mut list, object_of(m));
                proof {
                    let all = before.push(ev[i as int]);
                    let last = ev[i as int];
                    assert(all.map_values(named) =~= before.map_values(named).push(last.id));
                    assert(all.map_values(told) =~= before.map_values(told).push(told(last)));
                }
            }
            i = i + 1;
        }
        (ids, list_of(list))
    }

    fn take_suggestions(&mut self, response: &BackendResponse) -> (r: CliStep)
        ensures
            (final(self).deep_view(), r.deep_view()) == plan_made(
                old(self).deep_view(),
                response.deep_view(),
            ),
            step_ok(r.deep_view()),
    {
        match response {
            BackendResponse::Emails { emails: Ok(emails), .. } => {
                let (archive, archived) = self.pick(emails, TriageHintActionDef::Archive);
                let (trash, deleted) = self.pick(emails, TriageHintActionDef::Trash);
                let (_, kept) = self.pick(emails, TriageHintActionDef::Keep);
                let mut id = "plan-".to_owned();
                id.append(dec(self.plans.len() as u64).as_str());
                let mut m: Vec<(String, Json)> = no_items();
                put_field(&mut m, "plan_id", text_of(id.as_str()));
                put_field(&mut m, "archive", archived);
                put_field(&mut m, "trash", deleted);
                put_field(&mut m, "keep", kept);
                put(&mut self.plans, TriagePlan { id, archive, trash });
                CliStep::Answer(ok_response(object_of(m)))
            },
            BackendResponse::Emails { emails: Err(e), .. } => CliStep::Answer(
                err_response(e.as_str()),
            ),
            _ => CliStep::Answer(err_response("unexpected response from backend")),
        }
    }

    fn is_plan_ready(&self, archive: &Vec<String>, trash: &Vec<String>) -> (r: bool)
        ensures
            r == plan_ready(self.deep_view(), archive.deep_view(), trash.deep_view()),
    {
        (archive.len() == 0 || self.target(true).is_some()) && (trash.len() == 0 || self.target(
            false,
        ).is_some())
    }

    fn carry_out(&mut self, archive: &Vec<String>, trash: &Vec<String>) -> (r: CliStep)
        ensures
            (final(self).deep_view(), r.deep_view()) == batch_step(
                old(self).deep_view(),
                plan_items(old(self).deep_view(), archive.deep_view(), trash.deep_view()),
                true,
                0,
                Seq::empty(),
                0,
            ),
            step_ok(r.deep_view()),
    {
        let mut items = make_items(archive, &self.target(true));
        put_all(&mut items, make_items(trash, &self.target(false)));
        let none: Vec<Json> = no_items();
        self.batch(items, true, 0, none, 0)
    }

    fn apply_plan(&mut self, input: &Json) -> (r: CliStep)
        ensures
            (final(self).deep_view(), r.deep_view()) == apply_step(
                old(self).deep_view(),
                input.deep_view(),
            ),
            step_ok(r.deep_view()),
    {
        let id = match input.get_text("plan_id") {
            Some(id) => id,
            None => {
                return lacks("plan_id");
            },
        };
        let ghost pv = self.plans.deep_view();
        let mut i: usize = 0;
        while i < self.plans.len() && !same(at(self.plans.as_slice(), i).id.as_str(), id.as_str())
            invariant
                i <= self.plans@.len(),
                *self == *old(self),
                pv == self.plans.deep_view(),
                plan_position(pv, id@, 0) == plan_position(pv, id@, i as int),
            decreases self.plans@.len() - i,
        {
            i = i + 1;
        }
        if i >= self.plans.len() {
            let mut m = "unknown plan '".to_owned();
            m.append(id.as_str());
            m.append("'");
            return CliStep::Answer(err_response(m.as_str()));
        }
        let archive = copy_list(&at(self.plans.as_slice(), i).archive);
        let trash = copy_list(&at(self.plans.as_slice(), i).trash);
        if self.is_plan_ready(&archive, &trash) {
            self.carry_out(&archive, &trash)
        } else {
            self.ask(
                BackendCommand::FetchMailboxes { origin: "cli".to_owned() },
                Waiting::Plan { archive, trash },
            )
        }
    }

    fn take_plan_folders(
        &mut self,
        archive: Vec<String>,
        trash: Vec<String>,
        response: &BackendResponse,
    ) -> (r: CliStep)
        ensures
            (final(self).deep_view(), r.deep_view()) == plan_listed(
                old(self).deep_view(),
                archive.deep_view(),
                trash.deep_view(),
                response.deep_view(),
            ),
            step_ok(r.deep_view()),
    {
        match response {
            BackendResponse::Mailboxes(Ok(ms)) => {
                self.cached_mailboxes = ms.dup();
                if self.is_plan_ready(&archive, &trash) {
                    self.carry_out(&archive, &trash)
                } else {
                    let lacks_archive = archive.len() > 0 && self.target(true).is_none();
                    CliStep::Answer(self.no_such_folder(lacks_archive))
                }
            },
            BackendResponse::Mailboxes(Err(e)) => CliStep::Answer(err_response(e.as_str())),
            _ => CliStep::Answer(err_response("unexpected response from backend")),
        }
    }

    fn no_such_folder(&self, archive: bool) -> (r: Json)
        ensures
            r.deep_view() == no_folder(self.deep_view(), archive),
    {
        let mut s = if archive {
            "cannot resolve archive folder '".to_owned()
        } else {
            "cannot resolve deleted folder '".to_owned()
        };
        s.append(
            if archive {
                self.archive_folder.as_str()
            } else {
                self.deleted_folder.as_str()
            },
        );
        s.append("'");
        err_response(s.as_str())
    }

    fn destroy(&mut self, input: &Json) -> (r: CliStep)
        ensures
            (final(self).deep_view(), r.deep_view()) == destroy_command(
                old(self).deep_view(),
                input.deep_view(),
            ),
            step_ok(r.deep_view()),
    {
        let none: Vec<Json> = no_items();
        match read_ids(input) {
            Ok(ids) => self.batch(make_items(&ids, &None), false, 0, none, 0),
            Err(e) => CliStep::Answer(err_response(e.as_str())),
        }
    }

    fn draft_user(&self) -> (r: String)
        ensures
            r@ == draft_from(self.deep_view()),
    {
        match &self.connected_username {
            Some(u) => u.clone(),
            None => "user@example.com".to_owned(),
        }
    }

    fn ask_for_field(&self, input: &Json, key: &str, command: &str) -> (r: CliStep)
        ensures
            r.deep_view() == field_step(self.deep_view(), input.deep_view(), key@, command@),
    {
        let x = match input.get_text(key) {
            Some(x) => x,
            None => {
                return lacks(key);
            },
        };
        let headers_only = input.get_bool("headers_only") == Some(true);
        let max_body_chars: usize = chars_wanted(input);
        if same(command, "create_mailbox") {
            self.ask(BackendCommand::CreateMailbox { name: x }, Waiting::Created)
        } else if same(command, "delete_mailbox") {
            let name = self.name_of(x.as_str());
            self.ask(BackendCommand::DeleteMailbox { id: x, name }, Waiting::Deleted)
        } else if same(command, "query_emails") {
            self.ask(
                BackendCommand::QueryEmails {
                    origin: "cli".to_owned(),
                    mailbox_id: x,
                    page_size: short_number(input, "limit", 50),
                    position: short_number(input, "position", 0),
                    search_query: input.get_text("search"),
                    received_after: input.get_text("received_after"),
                    received_before: input.get_text("received_before"),
                },
                Waiting::Query { headers_only, max_body_chars },
            )
        } else if same(command, "triage_suggest") {
            self.ask(
                BackendCommand::QueryEmails {
                    origin: "cli".to_owned(),
                    mailbox_id: x,
                    page_size: short_number(input, "limit", 50),
                    position: 0,
                    search_query: None,
                    received_after: input.get_text("received_after"),
                    received_before: input.get_text("received_before"),
                },
                Waiting::Suggest,
            )
        } else if same(command, "get_email") {
            self.ask(
                BackendCommand::GetEmail { id: x },
                Waiting::Email { headers_only, max_body_chars },
            )
        } else if same(command, "get_thread") {
            self.ask(
                BackendCommand::QueryThreadEmails { thread_id: x.clone() },
                Waiting::Thread { thread_id: x, headers_only, max_body_chars },
            )
        } else if same(command, "mark_mailbox_read") {
            let mailbox_name = self.name_of(x.as_str());
            self.ask(
                BackendCommand::MarkMailboxRead { mailbox_id: x, mailbox_name },
                Waiting::MailboxRead,
            )
        } else if same(command, "get_raw_headers") {
            self.ask(BackendCommand::GetEmailRawHeaders { id: x }, Waiting::RawHeaders)
        } else if same(command, "reply_draft") {
            let all = input.get_bool("reply_all") == Some(true);
            self.ask(BackendCommand::GetEmailForReply { id: x }, Waiting::Reply { all })
        } else if same(command, "forward_draft") {
            self.ask(BackendCommand::GetEmailForReply { id: x }, Waiting::Forward)
        } else {
            let name = match input.get_text("name") {
                Some(n) => n,
                None => "attachment".to_owned(),
            };
            let content_type = match input.get_text("content_type") {
                Some(t) => t,
                None => "application/octet-stream".to_owned(),
            };
            self.ask(
                BackendCommand::DownloadAttachment { blob_id: x, name, content_type },
                Waiting::Attachment,
            )
        }
    }

    /// Takes a command that has been read, or that could not be read.
    pub fn take_input(&mut self, input: &Result<Json, String>) -> (r: CliStep)
        ensures
            (final(self).deep_view(), r.deep_view()) == input_taken(
                old(self).deep_view(),
                match input {
                    Ok(j) => Ok(j.deep_view()),
                    Err(e) => Err(e@),
                },
            ),
            step_ok(r.deep_view()),
    {
        match input {
            Ok(j) => self.dispatch(j),
            Err(e) => {
                let mut msg = "JSON parse error: ".to_owned();
                msg.append(e.as_str());
                CliStep::Answer(err_response(msg.as_str()))
            },
        }
    }

    /// Takes a line of input. A line of nothing but white space is passed over.
    pub fn take_line(&mut self, line: &str) -> (r: Option<CliStep>)
        ensures
            if trimmed(line@).len() == 0 {
                r is None && final(self).deep_view() == old(self).deep_view()
            } else {
                &&& r is Some
                &&& (final(self).deep_view(), r->0.deep_view()) == input_taken(
                    old(self).deep_view(),
                    json_read(trimmed(line@)),
                )
                &&& step_ok(r->0.deep_view())
            },
    {
        let t = trim(line);
        if t.as_str().is_empty() {
            return None;
        }
        Some(self.take_input(&read_json(t.as_str())))
    }

    /// Takes a command.
    pub fn dispatch(&mut self, input: &Json) -> (r: CliStep)
        ensures
            (final(self).deep_view(), r.deep_view()) == dispatched(
                old(self).deep_view(),
                input.deep_view(),
            ),
            step_ok(r.deep_view()),
    {
        let command = match input.get_text("command") {
            Some(c) => c,
            None => {
                return lacks("command");
            },
        };
        let c = command.as_str();
        if same(c, "list_accounts") {
            let f = |a: &AccountConfig| -> (o: Json)
                ensures
                    o.deep_view() == account_json(a.deep_view()),
                { make_account(a) };
            let list = list_map(
                &self.accounts,
                f,
                Ghost(|a: AccountConfigV| account_json(a)),
            );
            CliStep::Answer(respond_with("accounts", list))
        } else if same(c, "connect") {
            self.connect(input)
        } else if same(c, "status") {
            CliStep::Answer(self.status())
        } else if same(c, "list_mailboxes") {
            self.ask(
                BackendCommand::FetchMailboxes { origin: "cli".to_owned() },
                Waiting::Mailboxes,
            )
        } else if same(c, "create_mailbox") {
            self.ask_for_field(input, "name", c)
        } else if same(c, "delete_mailbox") || same(c, "query_emails") || same(
            c,
            "mark_mailbox_read",
        ) {
            self.ask_for_field(input, "mailbox_id", c)
        } else if same(c, "get_email") || same(c, "get_raw_headers") || same(c, "reply_draft")
            || same(c, "forward_draft") {
            self.ask_for_field(input, "id", c)
        } else if same(c, "get_thread") {
            self.ask_for_field(input, "thread_id", c)
        } else if same(c, "download_attachment") {
            self.ask_for_field(input, "blob_id", c)
        } else if same(c, "mark_read") {
            self.change(input, ChangeKind::Read)
        } else if same(c, "mark_unread") {
            self.change(input, ChangeKind::Unread)
        } else if same(c, "flag") {
            self.change(input, ChangeKind::Flag)
        } else if same(c, "unflag") {
            self.change(input, ChangeKind::Unflag)
        } else if same(c, "move_email") {
            match (input.get_text("id"), input.get_text("to_mailbox_id")) {
                (Some(id), Some(target)) => self.move_to(id, target),
                (None, _) => lacks("id"),
                (Some(_), None) => lacks("to_mailbox_id"),
            }
        } else if same(c, "archive") {
            self.to_folder(input, true)
        } else if same(c, "delete_email") {
            self.to_folder(input, false)
        } else if same(c, "bulk_archive") {
            self.all_to_folder(input, true)
        } else if same(c, "bulk_delete_email") {
            self.all_to_folder(input, false)
        } else if same(c, "triage_suggest") {
            self.ask_for_field(input, "mailbox_id", c)
        } else if same(c, "apply_triage_plan") {
            self.apply_plan(input)
        } else if same(c, "destroy") {
            self.destroy(input)
        } else if same(c, "compose_draft") {
            let draft = build_compose_draft(self.draft_user().as_str());
            CliStep::Answer(respond_with("draft", Json::Text(draft)))
        } else if same(c, "keybindings") {
            let f = |b: &KeyBinding| -> (o: Json)
                ensures
                    o.deep_view() == binding_json(b.deep_view()),
                { make_binding(b) };
            let list = list_map(&self.bindings, f, Ghost(|b: KeyBindingV| binding_json(b)));
            CliStep::Answer(respond_with("keybindings", list))
        } else {
            let mut s = "unknown command '".to_owned();
            s.append(c);
            s.append("'");
            CliStep::Answer(err_response(s.as_str()))
        }
    }

    fn answer(&self, waiting: &Waiting, response: &BackendResponse) -> (r: Json)
        ensures
            r.deep_view() == answered(
                self.deep_view(),
                waiting.deep_view(),
                response.deep_view(),
            ),
    {
        match (waiting, response) {
            (Waiting::Mailboxes, BackendResponse::Mailboxes(result)) => match result {
                Ok(ms) => {
                    let f = |m: &Mailbox| -> (o: Json)
                        ensures
                            o.deep_view() == mailbox_json(m.deep_view()),
                        { serialize_mailbox(m) };
                    respond_with("mailboxes", list_map(ms, f, Ghost(|m: MailboxV| mailbox_json(m))))
                },
                Err(e) => err_response(e.as_str()),
            },
            (Waiting::Created, BackendResponse::MailboxCreated { name, result }) => {
                respond_name(name, result)
            },
            (Waiting::Deleted, BackendResponse::MailboxDeleted { name, result }) => {
                respond_name(name, result)
            },
            (
                Waiting::Query { headers_only, max_body_chars },
                BackendResponse::Emails { emails, total, position, loaded, thread_counts, .. },
            ) => match emails {
                Ok(list) => {
                    let mut m: Vec<(String, Json)> = no_items();
                    put_field(&mut m, "emails", make_emails(list, *headers_only, *max_body_chars));
                    put_field(
                        &mut m,
                        "total",
                        match total {
                            Some(n) => Json::UInt(*n as u64),
                            None => Json::Null,
                        },
                    );
                    put_field(&mut m, "position", Json::UInt(*position as u64));
                    put_field(&mut m, "loaded", Json::UInt(*loaded as u64));
                    put_field(&mut m, "thread_counts", make_counts(thread_counts));
                    ok_response(object_of(m))
                },
                Err(e) => err_response(e.as_str()),
            },
            (
                Waiting::Email { headers_only, max_body_chars },
                BackendResponse::EmailBody { result, .. },
            ) => match result {
                Ok(e) => ok_response(serialize_email(e, *headers_only, *max_body_chars)),
                Err(e) => err_response(e.as_str()),
            },
            (
                Waiting::Thread { thread_id, headers_only, max_body_chars },
                BackendResponse::ThreadEmails { emails, .. },
            ) => match emails {
                Ok(list) => {
                    let mut m: Vec<(String, Json)> = no_items();
                    put_field(&mut m, "thread_id", text_of(thread_id.as_str()));
                    put_field(&mut m, "emails", make_emails(list, *headers_only, *max_body_chars));
                    ok_response(object_of(m))
                },
                Err(e) => err_response(e.as_str()),
            },
            (Waiting::Change, BackendResponse::EmailMutation { op_id, id, action, result }) => {
                match result {
                    Ok(_) => {
                        let mut m: Vec<(String, Json)> = no_items();
                        put_field(&mut m, "op_id", Json::UInt(*op_id));
                        put_field(&mut m, "id", text_of(id.as_str()));
                        put_field(&mut m, "action", text_of(text_of_action(*action)));
                        ok_response(object_of(m))
                    },
                    Err(e) => err_response(e.as_str()),
                }
            },
            (
                Waiting::MailboxRead,
                BackendResponse::MailboxMarkedRead { mailbox_name, updated, result, .. },
            ) => match result {
                Ok(_) => {
                    let mut m: Vec<(String, Json)> = no_items();
                    put_field(&mut m, "mailbox_name", text_of(mailbox_name.as_str()));
                    put_field(&mut m, "updated", Json::UInt(*updated as u64));
                    ok_response(object_of(m))
                },
                Err(e) => err_response(e.as_str()),
            },
            (Waiting::RawHeaders, BackendResponse::EmailRawHeaders { result, .. }) => match result {
                Ok(h) => respond_with("headers", text_of(h.as_str())),
                Err(e) => err_response(e.as_str()),
            },
            (Waiting::Attachment, BackendResponse::AttachmentDownloaded { name, result }) => {
                match result {
                    Ok(path) => {
                        let mut m: Vec<(String, Json)> = no_items();
                        put_field(&mut m, "name", text_of(name.as_str()));
                        put_field(&mut m, "path", text_of(path.as_str()));
                        ok_response(object_of(m))
                    },
                    Err(e) => err_response(e.as_str()),
                }
            },
            (Waiting::Reply { all }, BackendResponse::EmailForReply { result, .. }) => match result {
                Ok(e) => {
                    let draft = build_reply_draft(e, *all, self.draft_user().as_str());
                    respond_with("draft", Json::Text(draft))
                },
                Err(e) => err_response(e.as_str()),
            },
            (Waiting::Forward, BackendResponse::EmailForReply { result, .. }) => match result {
                Ok(e) => {
                    let draft = build_forward_draft(e, self.draft_user().as_str());
                    respond_with("draft", Json::Text(draft))
                },
                Err(e) => err_response(e.as_str()),
            },
            _ => err_response("unexpected response from backend"),
        }
    }

    /// Takes the response to a command for the backend.
    pub fn on_response(&mut self, waiting: Waiting, response: &BackendResponse) -> (r: CliStep)
        requires
            waiting_ok(waiting.deep_view()),
        ensures
            (final(self).deep_view(), r.deep_view()) == responded(
                old(self).deep_view(),
                waiting.deep_view(),
                response.deep_view(),
            ),
            step_ok(r.deep_view()),
    {
        match waiting {
            Waiting::Batch { items, counted, at: i, results, succeeded } => {
                let n: usize = items.len();
                let mut results = results;
                let one = make_outcome(at(items.as_slice(), i).0.as_str(), response);
                put(&mut results, one);
                let done = match response {
                    BackendResponse::EmailMutation { result, .. } => result.is_ok(),
                    _ => false,
                };
                let succeeded: usize = if done {
                    succeeded.saturating_add(1)
                } else {
                    succeeded
                };
                self.batch(items, counted, i + 1, results, succeeded)
            },
            Waiting::Folder { ids, archive, bulk } => self.take_folders(
                ids,
                archive,
                bulk,
                response,
            ),
            Waiting::Suggest => self.take_suggestions(response),
            Waiting::Plan { archive, trash } => self.take_plan_folders(archive, trash, response),
            other => {
                let answer = self.answer(&other, response);
                match (&other, response) {
                    (Waiting::Mailboxes, BackendResponse::Mailboxes(Ok(ms))) => {
                        self.cached_mailboxes = ms.dup();
                    },
                    _ => {},
                }
                CliStep::Answer(answer)
            },
        }
    }

    /// Takes it that the backend is gone.
    pub fn on_error(&mut self, waiting: Waiting, e: &str) -> (r: CliStep)
        requires
            waiting_ok(waiting.deep_view()),
        ensures
            (final(self).deep_view(), r.deep_view()) == broken_off(
                old(self).deep_view(),
                waiting.deep_view(),
                e@,
            ),
            step_ok(r.deep_view()),
    {
        match waiting {
            Waiting::Batch { items, counted, at: i, results, succeeded } => {
                let n: usize = items.len();
                let mut results = results;
                let one = make_result(at(items.as_slice(), i).0.as_str(), Some(e));
                put(&mut results, one);
                self.batch(items, counted, i + 1, results, succeeded)
            },
            _ => CliStep::Answer(err_response(e)),
        }
    }
}

fn make_items(ids: &Vec<String>, target: &Option<String>) -> (r: Vec<(String, Option<String>)>)
    ensures
        r.deep_view() == items_for(ids.deep_view(), target.deep_view()),
{
    let ghost all = items_for(ids.deep_view(), target.deep_view());
    let mut items: Vec<(String, Option<String>)> = no_items();
    let mut i: usize = 0;
    while i < ids.len()
        invariant
            i <= ids@.len(),
            all == items_for(ids.deep_view(), target.deep_view()),
            items.deep_view() == all.take(i as int),
        decreases ids@.len() - i,
    {
        put(&mut items, (at(ids.as_slice(), i).clone(), target.dup()));
        assert(all.take(i + 1) =~= all.take(i as int).push(all[i as int]));
        i = i + 1;
    }
    assert(all.take(all.len() as int) =~= all);
    items
}

fn chars_wanted(input: &Json) -> (r: usize)
    ensures
        r == wanted_chars(input.deep_view()),
{
    match input.get_number("max_body_chars") {
        Some(n) => {
            #[verifier::truncate]
            (n as usize)
        },
        None => 0,
    }
}

fn short_number(input: &Json, key: &str, default: u64) -> (r: u32)
    ensures
        r == query_number(input.deep_view(), key@, default),
{
    let n: u64 = match input.get_number(key) {
        Some(n) => n,
        None => default,
    };
    #[verifier::truncate]
    (n as u32)
}

fn collect_texts(list: &Vec<Json>) -> (r: Option<Vec<String>>)
    ensures
        r.deep_view() == all_texts(list.deep_view(), list.deep_view().len() as int),
{
    let ghost lv = list.deep_view();
    let mut out: Vec<String> = no_items();
    let mut i: usize = 0;
    while i < list.len()
        invariant
            i <= list@.len(),
            lv == list.deep_view(),
            all_texts(lv, i as int) == Some(out.deep_view()),
        decreases list@.len() - i,
    {
        assert(lv[i as int] == list@[i as int].deep_view());
        match &list[i] {
            Json::Text(s) => {
                put(&mut out, s.clone());
            },
            _ => {
                proof {
                    lemma_not_all_texts(lv, i + 1, lv.len() as int);
                }
                return None;
            },
        }
        i = i + 1;
    }
    Some(out)
}

fn read_ids(input: &Json) -> (r: Result<Vec<String>, String>)
    ensures
        match r {
            Ok(ids) => ids_in(input.deep_view()) == Ok::<Seq<Seq<char>>, Seq<char>>(
                ids.deep_view(),
            ),
            Err(e) => ids_in(input.deep_view()) == Err::<Seq<Seq<char>>, Seq<char>>(e@),
        },
{
    match input.get("ids") {
        Some(Json::List(list)) => {
            assert(json_view(Json::List(*list))->List_0 =~= list.deep_view());
            match collect_texts(list) {
                Some(ids) => Ok(ids),
                None => Err("'ids' must be an array of strings".to_owned()),
            }
        },
        _ => match input.get_text("id") {
            Some(id) => {
                let mut ids: Vec<String> = no_items();
                put(&mut ids, id);
                Ok(ids)
            },
            None => Err("missing 'ids' or 'id' field".to_owned()),
        },
    }
}

proof fn lemma_not_all_texts(list: Seq<JsonV>, i: int, n: int)
    requires
        0 <= i <= n,
        all_texts(list, i) is None,
    ensures
        all_texts(list, n) is None,
    decreases n - i,
{
    if i < n {
        lemma_not_all_texts(list, i + 1, n);
    }
}

fn make_result(id: &str, error: Option<&str>) -> (r: Json)
    ensures
        r.deep_view() == result_json(
            id@,
            match error {
                Some(e) => Some(e@),
                None => None,
            },
        ),
{
    let mut m: Vec<(String, Json)> = no_items();
    put_field(&mut m, "id", text_of(id));
    match error {
        None => {
            put_field(&mut m, "ok", Json::Bool(true));
        },
        Some(e) => {
            put_field(&mut m, "ok", Json::Bool(false));
            put_field(&mut m, "error", text_of(e));
        },
    }
    object_of(m)
}

fn make_outcome(id: &str, response: &BackendResponse) -> (r: Json)
    ensures
        r.deep_view() == outcome_json(id@, response.deep_view()),
{
    match response {
        BackendResponse::EmailMutation { id: done, result, .. } => match result {
            Ok(_) => make_result(done.as_str(), None),
            Err(e) => make_result(done.as_str(), Some(e.as_str())),
        },
        _ => make_result(id, Some("unexpected response")),
    }
}

fn respond_name(name: &String, result: &Result<(), String>) -> (r: Json)
    ensures
        r.deep_view() == name_or_error(
            name@,
            match result {
                Ok(_) => Ok(()),
                Err(e) => Err(e@),
            },
        ),
{
    match result {
        Ok(_) => respond_with("name", text_of(name.as_str())),
        Err(e) => err_response(e.as_str()),
    }
}

// ---------------------------------------------------------------------------
// Laws
// ---------------------------------------------------------------------------

/// Whether an answer is in order: it says that things went well, or that they did
/// not and why.
pub open spec fn answer_ok(j: JsonV) -> bool {
    match bool_field(j, "ok"@) {
        Some(ok) => ok || text_field(j, "error"@) is Some,
        None => false,
    }
}

broadcast proof fn lemma_ok_answer(data: JsonV)
    ensures
        answer_ok(#[trigger] ok_answer(data)),
{
    reveal_strlit("ok");
    reveal_strlit("data");
    assert("ok"@.len() == 2 && "data"@.len() == 4);
    match data {
        JsonV::Object(m) => {
            lemma_lookup_with_entry(m, "ok"@, JsonV::Bool(true), "ok"@);
        },
        _ => {
            reveal_with_fuel(key_index, 3);
        },
    }
}

broadcast proof fn lemma_err_answer(msg: Seq<char>)
    ensures
        answer_ok(#[trigger] err_answer(msg)),
{
    reveal_strlit("ok");
    reveal_strlit("error");
    assert("ok"@.len() == 2 && "error"@.len() == 5);
    reveal_with_fuel(key_index, 3);
}

proof fn lemma_batch_answers(
    s: CliStateV,
    items: Seq<(Seq<char>, Option<Seq<char>>)>,
    counted: bool,
    i: int,
    results: Seq<JsonV>,
    succeeded: usize,
)
    ensures
        match batch_step(s, items, counted, i, results, succeeded).1 {
            CliStepV::Answer(j) => answer_ok(j),
            _ => true,
        },
    decreases items.len() - i,
{
    broadcast use lemma_ok_answer;

    if i < items.len() && !s.connected {
        lemma_batch_answers(
            numbered(s),
            items,
            counted,
            i + 1,
            results.push(result_json(items[i].0, Some("not connected"@))),
            succeeded,
        );
    }
}

/// Every answer to a command says that things went well, or that they did not and
/// why.
pub proof fn law_answers_are_in_order(s: CliStateV, input: JsonV)
    ensures
        match dispatched(s, input).1 {
            CliStepV::Answer(j) => answer_ok(j),
            _ => true,
        },
{
    broadcast use {lemma_ok_answer, lemma_err_answer};

    match ids_in(input) {
        Ok(ids) => {
            let none = items_for(ids, None);
            let archive = items_for(ids, folder_target(s, true));
            let trash = items_for(ids, folder_target(s, false));
            lemma_batch_answers(s, none, false, 0, Seq::empty(), 0);
            lemma_batch_answers(s, archive, true, 0, Seq::empty(), 0);
            lemma_batch_answers(s, trash, true, 0, Seq::empty(), 0);
        },
        Err(_) => {},
    }
    match text_field(input, "plan_id"@) {
        Some(id) => {
            let p = s.plans[plan_position(s.plans, id, 0)];
            let items = plan_items(s, p.archive, p.trash);
            lemma_batch_answers(s, items, true, 0, Seq::empty(), 0);
        },
        None => {},
    }
}

/// However the backend responds, or if it is gone, the answer that follows says
/// that things went well, or that they did not and why.
pub proof fn law_late_answers_are_in_order(
    s: CliStateV,
    waiting: WaitingV,
    response: BackendResponseV,
    e: Seq<char>,
)
    ensures
        match responded(s, waiting, response).1 {
            CliStepV::Answer(j) => answer_ok(j),
            _ => true,
        },
        match broken_off(s, waiting, e).1 {
            CliStepV::Answer(j) => answer_ok(j),
            _ => true,
        },
{
    broadcast use {lemma_ok_answer, lemma_err_answer};

    match waiting {
        WaitingV::Batch { items, counted, at, results, succeeded } => {
            lemma_batch_answers(
                s,
                items,
                counted,
                at + 1,
                results.push(outcome_json(items[at as int].0, response)),
                if is_done(response) && succeeded < usize::MAX {
                    (succeeded + 1) as usize
                } else {
                    succeeded
                },
            );
            lemma_batch_answers(
                s,
                items,
                counted,
                at + 1,
                results.push(result_json(items[at as int].0, Some(e))),
                succeeded,
            );
        },
        WaitingV::Folder { ids, archive, bulk } => match response {
            BackendResponseV::Mailboxes(Ok(ms)) => {
                let l = CliStateV { cached_mailboxes: ms, ..s };
                let items = items_for(ids, folder_target(l, archive));
                lemma_batch_answers(l, items, true, 0, Seq::empty(), 0);
            },
            _ => {},
        },
        WaitingV::Plan { archive, trash } => match response {
            BackendResponseV::Mailboxes(Ok(ms)) => {
                let l = CliStateV { cached_mailboxes: ms, ..s };
                let items = plan_items(l, archive, trash);
                lemma_batch_answers(l, items, true, 0, Seq::empty(), 0);
            },
            _ => {},
        },
        _ => {},
    }
}

/// While nothing is connected, no command reaches the backend.
pub proof fn law_nothing_is_sent_unconnected(s: CliStateV, input: JsonV)
    requires
        !s.connected,
    ensures
        !(dispatched(s, input).1 is Send),
{
    match ids_in(input) {
        Ok(ids) => {
            let none = items_for(ids, None);
            let archive = items_for(ids, folder_target(s, true));
            let trash = items_for(ids, folder_target(s, false));
            lemma_no_batch_unconnected(s, none, false, 0, Seq::empty(), 0);
            lemma_no_batch_unconnected(s, archive, true, 0, Seq::empty(), 0);
            lemma_no_batch_unconnected(s, trash, true, 0, Seq::empty(), 0);
        },
        Err(_) => {},
    }
    match text_field(input, "plan_id"@) {
        Some(id) => {
            let p = s.plans[plan_position(s.plans, id, 0)];
            let items = plan_items(s, p.archive, p.trash);
            lemma_no_batch_unconnected(s, items, true, 0, Seq::empty(), 0);
        },
        None => {},
    }
}

proof fn lemma_no_batch_unconnected(
    s: CliStateV,
    items: Seq<(Seq<char>, Option<Seq<char>>)>,
    counted: bool,
    i: int,
    results: Seq<JsonV>,
    succeeded: usize,
)
    requires
        !s.connected,
    ensures
        !(batch_step(s, items, counted, i, results, succeeded).1 is Send),
    decreases items.len() - i,
{
    if i < items.len() {
        lemma_no_batch_unconnected(
            numbered(s),
            items,
            counted,
            i + 1,
            results.push(result_json(items[i].0, Some("not connected"@))),
            succeeded,
        );
    }
}

/// A proposal changes nothing until it is applied: making one sends no command but
/// the query for the messages.
pub proof fn law_proposals_change_nothing(s: CliStateV, response: BackendResponseV)
    ensures
        !(responded(s, WaitingV::Suggest, response).1 is Send),
        ({
            let after = responded(s, WaitingV::Suggest, response).0;
            CliStateV { plans: s.plans, ..after } == s && s.plans.is_prefix_of(after.plans)
        }),
{
}

/// Applying a proposal moves messages and destroys none: every one of its messages has
/// a mailbox to go to.
pub proof fn law_proposals_destroy_nothing(
    s: CliStateV,
    archive: Seq<Seq<char>>,
    trash: Seq<Seq<char>>,
    i: int,
)
    requires
        plan_ready(s, archive, trash),
        0 <= i < plan_items(s, archive, trash).len(),
    ensures
        plan_items(s, archive, trash)[i].1 is Some,
{
}

} // verus!
