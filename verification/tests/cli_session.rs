use regex::Regex;
use tmc::backend::tasks::{Backend, BackendEnv, Output, Reply, Request};
use tmc::backend::{BackendCommand, BackendResponse, QueuedMutation};
use tmc::cache::Cache;
use tmc::cli::{serialize_email, CliState, CliStep};
use tmc::config::Config;
use tmc::data::{Dup, StrMap};
use tmc::jmap::types::{
    BodyPart, BodyValue, Email, EmailAddress, EmailQueryResult, Mailbox, Thread,
};
use tmc::json::{read_json, Json};
use tmc::rules::{
    compile_rules, ActionsDef, CompiledRule, ConditionDef, RuleDef, TriageHintActionDef,
    TriageHintDef,
};

fn to_value(j: &Json) -> serde_json::Value {
    match j {
        Json::Null => serde_json::Value::Null,
        Json::Bool(b) => serde_json::Value::Bool(*b),
        Json::UInt(n) => serde_json::Value::from(*n),
        Json::Int(n) => serde_json::Value::from(*n),
        Json::Real(s) => serde_json::from_str(s).unwrap(),
        Json::Text(s) => serde_json::Value::String(s.clone()),
        Json::List(list) => serde_json::Value::Array(list.iter().map(to_value).collect()),
        Json::Object(m) => serde_json::Value::Object(
            m.iter().map(|(k, x)| (k.clone(), to_value(x))).collect(),
        ),
    }
}

#[derive(Clone)]
struct Record {
    id: &'static str,
    thread_id: &'static str,
    from_name: &'static str,
    from_email: &'static str,
    subject: &'static str,
    body: &'static str,
    received_at: &'static str,
    mailbox_id: String,
    is_read: bool,
    attachment: bool,
}

impl Record {
    fn email(&self) -> Email {
        let mut keywords = StrMap::new();
        if self.is_read {
            keywords.insert("$seen".to_string(), true);
        }
        let mut mailbox_ids = StrMap::new();
        mailbox_ids.insert(self.mailbox_id.clone(), true);
        let mut body_values = StrMap::new();
        body_values.insert(
            "1".to_string(),
            BodyValue {
                value: self.body.to_string(),
                is_encoding_problem: false,
                is_truncated: false,
            },
        );
        Email {
            id: self.id.to_string(),
            thread_id: Some(self.thread_id.to_string()),
            from: Some(vec![EmailAddress {
                name: Some(self.from_name.to_string()),
                email: Some(self.from_email.to_string()),
            }]),
            to: Some(vec![EmailAddress {
                name: Some("Test User".to_string()),
                email: Some("test@example.com".to_string()),
            }]),
            cc: None,
            reply_to: None,
            subject: Some(self.subject.to_string()),
            received_at: Some(self.received_at.to_string()),
            sent_at: Some(self.received_at.to_string()),
            preview: Some(self.body.chars().take(100).collect()),
            text_body: Some(vec![BodyPart {
                part_id: "1".to_string(),
                blob_id: None,
                content_type: None,
                name: None,
                size: None,
            }]),
            html_body: None,
            body_values,
            keywords,
            mailbox_ids,
            message_id: Some(vec![format!("<{}@example.com>", self.id)]),
            references: None,
            attachments: Some(if self.attachment {
                vec![BodyPart {
                    part_id: "2".to_string(),
                    blob_id: Some("blob-att-001".to_string()),
                    content_type: Some("application/pdf".to_string()),
                    name: Some("test-document.pdf".to_string()),
                    size: Some(1024),
                }]
            } else {
                vec![]
            }),
            extra: StrMap::new(),
        }
    }
}

fn record(
    id: &'static str,
    thread_id: &'static str,
    from: (&'static str, &'static str),
    subject: &'static str,
    body: &'static str,
    received_at: &'static str,
    mailbox_id: &str,
    is_read: bool,
) -> Record {
    Record {
        id,
        thread_id,
        from_name: from.0,
        from_email: from.1,
        subject,
        body,
        received_at,
        mailbox_id: mailbox_id.to_string(),
        is_read,
        attachment: id == "email-001",
    }
}

struct Server {
    emails: Vec<Record>,
}

impl Server {
    fn new() -> Server {
        Server {
            emails: vec![
                record(
                    "email-001",
                    "thread-001",
                    ("Alice", "alice@example.com"),
                    "Hello World",
                    "This is the body of email 001.",
                    "2025-01-15T10:30:00Z",
                    "mbox-inbox",
                    true,
                ),
                record(
                    "email-002",
                    "thread-002",
                    ("Bob", "bob@example.com"),
                    "Meeting Tomorrow",
                    "Let's meet at 10am.",
                    "2025-12-06T11:00:00Z",
                    "mbox-inbox",
                    false,
                ),
                record(
                    "email-003",
                    "thread-003",
                    ("Loan Team", "loan@equityexcelloans.com"),
                    "HARP program is approaching cap",
                    "Spammy mortgage email.",
                    "2025-12-20T09:00:00Z",
                    "mbox-inbox",
                    false,
                ),
                record(
                    "email-004",
                    "thread-004",
                    ("Delta", "DeltaAirLines@t.delta.com"),
                    "Your Flight Receipt",
                    "Flight receipt details.",
                    "2025-12-22T08:00:00Z",
                    "mbox-inbox",
                    true,
                ),
                record(
                    "email-005",
                    "thread-005",
                    ("Archive Seed", "seed@example.com"),
                    "Already archived",
                    "Archive mailbox seed",
                    "2025-11-01T08:00:00Z",
                    "mbox-archive",
                    true,
                ),
            ],
        }
    }

    fn mailbox(id: &str, name: &str, role: &str) -> Mailbox {
        Mailbox {
            id: id.to_string(),
            name: name.to_string(),
            parent_id: None,
            role: Some(role.to_string()),
            total_emails: 0,
            unread_emails: 0,
            sort_order: 0,
        }
    }

    fn find(&mut self, id: &str) -> Result<&mut Record, String> {
        self.emails
            .iter_mut()
            .find(|r| r.id == id)
            .ok_or_else(|| "not found".to_string())
    }

    fn list(&self, ids: &Vec<String>) -> Vec<Email> {
        ids.iter()
            .filter_map(|id| self.emails.iter().find(|r| r.id == id))
            .map(|r| r.email())
            .collect()
    }

    fn query(
        &self,
        mailbox_id: &str,
        limit: u32,
        position: u32,
        after: &Option<String>,
        before: &Option<String>,
    ) -> EmailQueryResult {
        let mut found: Vec<&Record> = self
            .emails
            .iter()
            .filter(|r| r.mailbox_id == mailbox_id)
            .filter(|r| after.as_ref().map_or(true, |a| r.received_at > a.as_str()))
            .filter(|r| before.as_ref().map_or(true, |b| r.received_at < b.as_str()))
            .collect();
        found.sort_by(|a, b| b.received_at.cmp(a.received_at));
        let total = found.len() as u32;
        EmailQueryResult {
            ids: found
                .iter()
                .skip(position as usize)
                .take(limit as usize)
                .map(|r| r.id.to_string())
                .collect(),
            total: Some(total),
            position,
        }
    }

    fn answer(&mut self, request: Request, ops: &mut Vec<QueuedMutation>) -> Reply {
        match request {
            Request::GetMailboxes => Reply::Mailboxes(Ok(vec![
                Server::mailbox("mbox-inbox", "INBOX", "inbox"),
                Server::mailbox("mbox-archive", "Archive", "archive"),
                Server::mailbox("mbox-trash", "Trash", "trash"),
            ])),
            Request::QueryEmails {
                mailbox_id,
                page_size,
                position,
                received_after,
                received_before,
                ..
            } => Reply::Page(Ok(self.query(
                &mailbox_id,
                page_size,
                position,
                &received_after,
                &received_before,
            ))),
            Request::QueryUncollapsed {
                mailbox_id,
                limit,
                position,
            } => Reply::Page(Ok(self.query(&mailbox_id, limit, position, &None, &None))),
            Request::GetEmails { ids, .. }
            | Request::GetEmailsForRules { ids, .. }
            | Request::GetKeywords { ids } => Reply::Emails(Ok(self.list(&ids))),
            Request::GetThreads { ids } => Reply::Threads(Ok(ids
                .iter()
                .map(|id| Thread {
                    id: id.clone(),
                    email_ids: self
                        .emails
                        .iter()
                        .filter(|r| r.thread_id == id)
                        .map(|r| r.id.to_string())
                        .collect(),
                })
                .collect())),
            Request::QueryThreadEmails { thread_id } => Reply::Emails(Ok(self
                .emails
                .iter()
                .filter(|r| r.thread_id == thread_id)
                .map(|r| r.email())
                .collect())),
            Request::GetEmail { id } | Request::GetEmailForReply { id } => {
                Reply::Email(Ok(self.list(&vec![id]).into_iter().next()))
            }
            Request::GetEmailRaw { id } => Reply::Raw(Ok(Some(format!(
                "Message-ID: <{}@example.com>\r\n\r\nbody",
                id
            )))),
            Request::MarkRead { id } => Reply::Done(self.find(&id).map(|r| r.is_read = true)),
            Request::MarkUnread { id } => Reply::Done(self.find(&id).map(|r| r.is_read = false)),
            Request::MoveEmail { id, to } => {
                Reply::Done(self.find(&id).map(|r| r.mailbox_id = to))
            }
            Request::DestroyEmails { ids } => {
                self.emails.retain(|r| !ids.contains(&r.id.to_string()));
                Reply::Done(Ok(()))
            }
            Request::Download { name, .. } => Reply::Saved(Ok(format!("/tmp/{}", name))),
            Request::Encode { op } => {
                ops.push(op);
                Reply::Payload(Ok(vec![(ops.len() - 1) as u8]))
            }
            Request::Decode { payload } => Reply::Decoded(Some(ops[payload[0] as usize].dup())),
            Request::Today => Reply::Day(Ok(20_000)),
            _ => Reply::Done(Ok(())),
        }
    }
}

struct Harness {
    server: Server,
    cli: CliState,
    backend: Option<Backend>,
    cache: Cache,
    ops: Vec<QueuedMutation>,
    offline: bool,
    commands: Vec<BackendCommand>,
}

fn env() -> BackendEnv {
    BackendEnv {
        rules: vec![],
        custom_headers: vec![],
        rules_mailbox_regex: Regex::new("^INBOX$").unwrap(),
        my_email_regex: Regex::new("^$").unwrap(),
    }
}

fn triage_rule(name: &str, subject: &str, action: TriageHintActionDef) -> RuleDef {
    RuleDef {
        name: name.to_string(),
        continue_processing: None,
        skip_if_to_me: None,
        match_condition: ConditionDef::Header {
            header: "Subject".to_string(),
            regex: subject.to_string(),
        },
        actions: ActionsDef {
            mark_read: None,
            mark_unread: None,
            flag: None,
            unflag: None,
            move_to: None,
            delete: None,
        },
        triage: Some(TriageHintDef {
            action,
            confidence: None,
        }),
    }
}

fn triage_rules() -> Vec<CompiledRule> {
    compile_rules(vec![
        triage_rule("receipts", "Receipt", TriageHintActionDef::Archive),
        triage_rule("loans", "HARP program", TriageHintActionDef::Trash),
    ])
    .unwrap()
}

impl Harness {
    fn start() -> Harness {
        Harness::start_with("", false, Server::new(), Cache::new(), vec![])
    }

    fn start_with(
        mail: &str,
        offline: bool,
        server: Server,
        cache: Cache,
        ops: Vec<QueuedMutation>,
    ) -> Harness {
        let config = Config::parse(&format!(
            r#"[account.test]
well_known_url = "http://localhost/.well-known/jmap"
username = "test@example.com"
password_command = "echo test"

[mail]
{}
"#,
            mail
        ))
        .unwrap();
        Harness {
            server,
            cli: CliState::new(
                config.accounts,
                config.mail.archive_folder,
                config.mail.deleted_folder,
                config.mail.archive_mailbox_id,
                config.mail.deleted_mailbox_id,
                vec![],
                triage_rules(),
                Regex::new("^$").unwrap(),
            ),
            backend: None,
            cache,
            ops,
            offline,
            commands: vec![],
        }
    }

    fn respond(&mut self, command: BackendCommand) -> BackendResponse {
        let backend = self.backend.as_mut().unwrap();
        let env = env();
        let mut told = None;
        let mut reply = None;
        let mut started = false;
        for _ in 0..10_000 {
            match backend.step(&env, reply.take()) {
                Output::Ask(request) => {
                    reply = Some(self.server.answer(request, &mut self.ops));
                }
                Output::Tell(response) => {
                    if told.is_none() {
                        told = Some(response);
                    }
                }
                Output::Continue => {}
                Output::Idle => {
                    if started {
                        return told.unwrap();
                    }
                    started = true;
                    told = None;
                    assert!(backend.begin(command.dup()));
                }
            }
        }
        panic!("no end");
    }

    fn send(&mut self, text: &str) -> serde_json::Value {
        let mut step = self.cli.take_line(text).unwrap();
        loop {
            match step {
                CliStep::Answer(j) => return to_value(&j),
                CliStep::Connect { account, shutdown } => {
                    assert_eq!(shutdown, self.backend.is_some());
                    let mut cache = Cache::new();
                    std::mem::swap(&mut cache, &mut self.cache);
                    self.backend = Some(Backend::new(Some(cache), self.offline));
                    return to_value(&self.cli.on_connected(&account, &Ok(())));
                }
                CliStep::Send { command, waiting } => {
                    self.commands.push(command.dup());
                    let response = self.respond(command);
                    step = self.cli.on_response(waiting, &response);
                }
            }
        }
    }

    fn stop(mut self) -> (Server, Cache, Vec<QueuedMutation>) {
        let cache = match self.backend.take() {
            Some(b) => b.state.cache.unwrap(),
            None => self.cache,
        };
        (self.server, cache, self.ops)
    }
}

#[test]
fn test_list_accounts() {
    let mut h = Harness::start();
    let resp = h.send(r#"{"command": "list_accounts"}"#);

    assert_eq!(resp["ok"], true);
    let accounts = resp["accounts"].as_array().expect("accounts array");
    assert_eq!(accounts.len(), 1);
    assert_eq!(accounts[0]["name"], "test");
    assert_eq!(accounts[0]["username"], "test@example.com");
}

#[test]
fn test_status_before_connect() {
    let mut h = Harness::start();
    let resp = h.send(r#"{"command": "status"}"#);

    assert_eq!(resp["ok"], true);
    assert_eq!(resp["connected"], false);
    assert!(resp["account"].is_null());
}

#[test]
fn test_connect_and_list_mailboxes() {
    let mut h = Harness::start();

    let resp = h.send(r#"{"command": "connect", "account": "test"}"#);
    assert_eq!(resp["ok"], true, "connect failed: {}", resp);

    let resp = h.send(r#"{"command": "list_mailboxes"}"#);
    assert_eq!(resp["ok"], true, "list_mailboxes failed: {}", resp);

    let mailboxes = resp["mailboxes"].as_array().expect("mailboxes array");
    assert_eq!(mailboxes.len(), 3);

    let names: Vec<&str> = mailboxes
        .iter()
        .map(|m| m["name"].as_str().unwrap())
        .collect();
    assert!(names.contains(&"INBOX"));
    assert!(names.contains(&"Archive"));
    assert!(names.contains(&"Trash"));
}

#[test]
fn test_query_and_get_email() {
    let mut h = Harness::start();

    let resp = h.send(r#"{"command": "connect", "account": "test"}"#);
    assert_eq!(resp["ok"], true, "connect failed: {}", resp);

    let resp =
        h.send(r#"{"command": "query_emails", "mailbox_id": "mbox-inbox", "limit": 50}"#);
    assert_eq!(resp["ok"], true, "query_emails failed: {}", resp);

    let emails = resp["emails"].as_array().expect("emails array");
    assert_eq!(emails.len(), 4);

    let resp = h.send(r#"{"command": "get_email", "id": "email-001"}"#);
    assert_eq!(resp["ok"], true, "get_email failed: {}", resp);
    assert_eq!(resp["id"], "email-001");
    assert_eq!(resp["subject"], "Hello World");
    assert!(resp["body"].as_str().unwrap().contains("body of email 001"));
}

#[test]
fn test_archive_and_delete_work_without_preloading_mailboxes() {
    let mut h = Harness::start();
    assert_eq!(
        h.send(r#"{"command": "connect", "account": "test"}"#)["ok"],
        true
    );

    let archive_resp = h.send(r#"{"command": "archive", "id": "email-002"}"#);
    assert_eq!(archive_resp["ok"], true, "archive failed: {}", archive_resp);

    let delete_resp = h.send(r#"{"command": "delete_email", "id": "email-003"}"#);
    assert_eq!(delete_resp["ok"], true, "delete failed: {}", delete_resp);

    let e2 = h.send(r#"{"command": "get_email", "id": "email-002", "headers_only": true}"#);
    let e3 = h.send(r#"{"command": "get_email", "id": "email-003", "headers_only": true}"#);
    let m2 = e2["mailbox_ids"].as_array().unwrap();
    let m3 = e3["mailbox_ids"].as_array().unwrap();
    assert_eq!(m2[0], "mbox-archive");
    assert_eq!(m3[0], "mbox-trash");
}

#[test]
fn test_mailbox_id_overrides_and_bulk_commands() {
    let mut h = Harness::start_with(
        r#"
archive_folder = "not-a-real-folder"
deleted_folder = "also-not-real"
archive_mailbox_id = "mbox-archive"
deleted_mailbox_id = "mbox-trash"
"#,
        false,
        Server::new(),
        Cache::new(),
        vec![],
    );
    assert_eq!(
        h.send(r#"{"command": "connect", "account": "test"}"#)["ok"],
        true
    );

    let bulk_archive =
        h.send(r#"{"command": "bulk_archive", "ids": ["email-001", "email-002"]}"#);
    assert_eq!(
        bulk_archive["ok"], true,
        "bulk_archive failed: {}",
        bulk_archive
    );
    assert_eq!(bulk_archive["succeeded"], 2);

    let bulk_delete = h.send(r#"{"command": "bulk_delete_email", "ids": ["email-003"]}"#);
    assert_eq!(
        bulk_delete["ok"], true,
        "bulk_delete failed: {}",
        bulk_delete
    );
    assert_eq!(bulk_delete["succeeded"], 1);

    let inbox =
        h.send(r#"{"command": "query_emails", "mailbox_id": "mbox-inbox", "limit": 50}"#);
    let ids: Vec<&str> = inbox["emails"]
        .as_array()
        .unwrap()
        .iter()
        .filter_map(|e| e["id"].as_str())
        .collect();
    assert!(!ids.contains(&"email-001"));
    assert!(!ids.contains(&"email-002"));
    assert!(!ids.contains(&"email-003"));
}

#[test]
fn test_query_emails_date_filters() {
    let mut h = Harness::start();
    assert_eq!(
        h.send(r#"{"command": "connect", "account": "test"}"#)["ok"],
        true
    );

    let resp = h.send(
        r#"{
        "command": "query_emails",
        "mailbox_id": "mbox-inbox",
        "received_after": "2025-12-01T00:00:00Z",
        "received_before": "2025-12-21T00:00:00Z",
        "limit": 50
    }"#,
    );
    assert_eq!(resp["ok"], true, "query with date filters failed: {}", resp);

    let ids: Vec<&str> = resp["emails"]
        .as_array()
        .unwrap()
        .iter()
        .filter_map(|e| e["id"].as_str())
        .collect();
    assert_eq!(ids, vec!["email-003", "email-002"]);
}

#[test]
fn test_mark_read_unread() {
    let mut h = Harness::start();

    let resp = h.send(r#"{"command": "connect", "account": "test"}"#);
    assert_eq!(resp["ok"], true, "connect failed: {}", resp);

    let resp = h.send(r#"{"command": "mark_read", "id": "email-002"}"#);
    assert_eq!(resp["ok"], true, "mark_read failed: {}", resp);
    assert_eq!(resp["action"], "MarkRead");

    let resp = h.send(r#"{"command": "mark_unread", "id": "email-002"}"#);
    assert_eq!(resp["ok"], true, "mark_unread failed: {}", resp);
    assert_eq!(resp["action"], "MarkUnread");
}

#[test]
fn test_offline_queue_replay_on_reconnect() {
    let mut online = Harness::start();
    assert_eq!(
        online.send(r#"{"command": "connect", "account": "test"}"#)["ok"],
        true
    );
    assert_eq!(online.send(r#"{"command": "list_mailboxes"}"#)["ok"], true);
    assert_eq!(
        online.send(r#"{"command": "query_emails", "mailbox_id": "mbox-inbox", "limit": 50}"#)
            ["ok"],
        true
    );
    let (server, cache, ops) = online.stop();

    let mut offline = Harness::start_with("", true, server, cache, ops);
    assert_eq!(
        offline.send(r#"{"command": "connect", "account": "test"}"#)["ok"],
        true
    );

    let mark = offline.send(r#"{"command": "mark_read", "id": "email-002"}"#);
    assert_eq!(mark["ok"], true, "offline mark_read failed: {}", mark);

    let archive = offline.send(r#"{"command": "archive", "id": "email-001"}"#);
    assert_eq!(archive["ok"], true, "offline archive failed: {}", archive);

    let inbox =
        offline.send(r#"{"command": "query_emails", "mailbox_id": "mbox-inbox", "limit": 50}"#);
    assert_eq!(inbox["ok"], true, "offline query failed: {}", inbox);
    let ids: Vec<&str> = inbox["emails"]
        .as_array()
        .unwrap()
        .iter()
        .filter_map(|e| e["id"].as_str())
        .collect();
    assert!(!ids.contains(&"email-001"));
    let (server, cache, ops) = offline.stop();
    assert_eq!(cache.queued_operations().len(), 2);

    let mut online = Harness::start_with("", false, server, cache, ops);
    assert_eq!(
        online.send(r#"{"command": "connect", "account": "test"}"#)["ok"],
        true
    );

    let e1 = online.send(r#"{"command": "get_email", "id": "email-001", "headers_only": true}"#);
    assert_eq!(e1["ok"], true, "post-replay get_email e1 failed: {}", e1);
    assert_eq!(e1["mailbox_ids"][0], "mbox-archive");

    let e2 = online.send(r#"{"command": "get_email", "id": "email-002", "headers_only": true}"#);
    assert_eq!(e2["ok"], true, "post-replay get_email e2 failed: {}", e2);
    assert_eq!(e2["is_read"], true);
    let (_, cache, _) = online.stop();
    assert!(cache.queued_operations().is_empty());
}

#[test]
fn test_download_attachment() {
    let mut h = Harness::start();

    let resp = h.send(r#"{"command": "connect", "account": "test"}"#);
    assert_eq!(resp["ok"], true, "connect failed: {}", resp);

    let resp = h.send(r#"{"command": "get_email", "id": "email-001"}"#);
    assert_eq!(resp["ok"], true, "get_email failed: {}", resp);
    let attachments = resp["attachments"].as_array().expect("attachments array");
    assert_eq!(attachments.len(), 1);
    assert_eq!(attachments[0]["name"], "test-document.pdf");
    assert_eq!(attachments[0]["blob_id"], "blob-att-001");

    let resp = h.send(
        r#"{
        "command": "download_attachment",
        "blob_id": "blob-att-001",
        "name": "test-document.pdf",
        "content_type": "application/pdf"
    }"#,
    );
    assert_eq!(resp["ok"], true, "download_attachment failed: {}", resp);
    assert_eq!(resp["name"], "test-document.pdf");
    assert_eq!(resp["path"], "/tmp/test-document.pdf");
    assert!(matches!(
        h.commands.last(),
        Some(BackendCommand::DownloadAttachment { blob_id, content_type, .. })
            if blob_id == "blob-att-001" && content_type == "application/pdf"
    ));
}

#[test]
fn errors_are_answers() {
    let mut h = Harness::start();
    let e = |resp: serde_json::Value| -> String {
        assert_eq!(resp["ok"], false);
        resp["error"].as_str().unwrap().to_string()
    };
    assert_eq!(e(h.send(r#"{"x": 1}"#)), "missing 'command' field");
    assert_eq!(e(h.send("[]")), "missing 'command' field");
    assert_eq!(
        e(h.send(r#"{"command": "nope"}"#)),
        "unknown command 'nope'"
    );
    assert_eq!(
        e(h.send(r#"{"command": "connect"}"#)),
        "missing 'account' field"
    );
    assert_eq!(
        e(h.send(r#"{"command": "connect", "account": "other"}"#)),
        "unknown account 'other'"
    );
    assert_eq!(
        e(h.send(r#"{"command": "list_mailboxes"}"#)),
        "not connected"
    );
    assert_eq!(e(h.send(r#"{"command": "flag"}"#)), "missing 'id' field");
    assert_eq!(
        e(h.send(r#"{"command": "move_email", "id": "a"}"#)),
        "missing 'to_mailbox_id' field"
    );
    assert_eq!(
        e(h.send(r#"{"command": "destroy"}"#)),
        "missing 'ids' or 'id' field"
    );
    assert_eq!(
        e(h.send(r#"{"command": "destroy", "ids": ["a", 1]}"#)),
        "'ids' must be an array of strings"
    );
    let resp = h.send(r#"{"command": "destroy", "ids": ["a", "b"]}"#);
    assert_eq!(resp["ok"], true);
    assert_eq!(resp["results"][1]["id"], "b");
    assert_eq!(resp["results"][1]["error"], "not connected");
    assert!(h.commands.is_empty());
}

#[test]
fn an_unknown_folder_is_an_error() {
    let mut h = Harness::start_with(
        "archive_folder = \"nowhere\"\n",
        false,
        Server::new(),
        Cache::new(),
        vec![],
    );
    h.send(r#"{"command": "connect", "account": "test"}"#);
    let resp = h.send(r#"{"command": "archive", "id": "email-001"}"#);
    assert_eq!(resp["ok"], false);
    assert_eq!(resp["error"], "cannot resolve archive folder 'nowhere'");
    let status = h.send(r#"{"command": "status"}"#);
    assert_eq!(status["cached_mailboxes"], 3);
    assert_eq!(status["username"], "test@example.com");
}

#[test]
fn messages_are_destroyed_one_after_the_other() {
    let mut h = Harness::start();
    h.send(r#"{"command": "connect", "account": "test"}"#);
    let resp = h.send(r#"{"command": "destroy", "ids": ["email-001", "email-004"]}"#);
    assert_eq!(resp["ok"], true);
    assert_eq!(resp["results"].as_array().unwrap().len(), 2);
    assert_eq!(resp["results"][0]["ok"], true);
    assert!(resp.get("succeeded").is_none());
    assert_eq!(h.server.emails.len(), 3);
    assert_eq!(h.commands.len(), 2);
}

#[test]
fn bodies_are_cut_when_asked() {
    let mut h = Harness::start();
    h.send(r#"{"command": "connect", "account": "test"}"#);
    let resp = h.send(r#"{"command": "get_email", "id": "email-001", "max_body_chars": 4}"#);
    assert_eq!(resp["body"], "This");
    assert_eq!(resp["body_truncated"], true);
    let resp = h.send(r#"{"command": "get_email", "id": "email-001", "max_body_chars": 400}"#);
    assert_eq!(resp["body_truncated"], false);
    let resp = h.send(r#"{"command": "get_email", "id": "email-001", "headers_only": true}"#);
    assert!(resp.get("body").is_none());
}

#[test]
fn drafts_are_answers() {
    let mut h = Harness::start();
    let resp = h.send(r#"{"command": "compose_draft"}"#);
    assert!(resp["draft"]
        .as_str()
        .unwrap()
        .starts_with("From: user@example.com\n"));
    h.send(r#"{"command": "connect", "account": "test"}"#);
    let resp = h.send(r#"{"command": "reply_draft", "id": "email-001"}"#);
    let draft = resp["draft"].as_str().unwrap();
    assert!(draft.contains("From: test@example.com\n"));
    assert!(draft.contains("Subject: Re: Hello World"));
    let resp = h.send(r#"{"command": "forward_draft", "id": "email-001"}"#);
    assert!(resp["draft"]
        .as_str()
        .unwrap()
        .contains("Subject: Fwd: Hello World"));
    let resp = h.send(r#"{"command": "get_raw_headers", "id": "email-001"}"#);
    assert_eq!(resp["headers"], "Message-ID: <email-001@example.com>");
    let resp = h.send(r#"{"command": "get_thread", "thread_id": "thread-001"}"#);
    assert_eq!(resp["emails"][0]["id"], "email-001");
}

#[test]
fn a_backend_that_is_gone_is_an_error() {
    let mut h = Harness::start();
    h.send(r#"{"command": "connect", "account": "test"}"#);
    let input = read_json(r#"{"command": "mark_read", "id": "a"}"#).unwrap();
    match h.cli.dispatch(&input) {
        CliStep::Send { waiting, .. } => match h.cli.on_error(waiting, "backend channel closed") {
            CliStep::Answer(j) => {
                let v = to_value(&j);
                assert_eq!(v["ok"], false);
                assert_eq!(v["error"], "backend channel closed");
            }
            _ => panic!("expected an answer"),
        },
        _ => panic!("expected a command"),
    }
}

#[test]
fn lines_are_read_as_json() {
    match read_json(r#" {"b": [1, -2, 1.5, "x\u0041", null, true], "a": {}} "#) {
        Ok(Json::Object(m)) => {
            assert_eq!(m.len(), 2);
            assert_eq!(m[0].0, "a");
            assert!(matches!(&m[0].1, Json::Object(e) if e.is_empty()));
            assert_eq!(m[1].0, "b");
            match &m[1].1 {
                Json::List(l) => {
                    assert_eq!(l.len(), 6);
                    assert!(matches!(l[0], Json::UInt(1)));
                    assert!(matches!(l[1], Json::Int(-2)));
                    assert!(matches!(&l[2], Json::Real(s) if s == "1.5"));
                    assert!(matches!(&l[3], Json::Text(s) if s == "xA"));
                    assert!(matches!(l[4], Json::Null));
                    assert!(matches!(l[5], Json::Bool(true)));
                }
                _ => panic!("expected a list"),
            }
        }
        _ => panic!("expected an object"),
    }
}

#[test]
fn lines_that_are_no_json_are_answered_with_the_error() {
    let mut h = Harness::start();
    let resp = h.send("{not json");
    assert_eq!(resp["ok"], false);
    assert_eq!(
        resp["error"],
        "JSON parse error: key must be a string at line 1 column 2"
    );
    assert!(h.cli.take_line(" \t ").is_none());
    match h.cli.take_input(&Err("why".to_string())) {
        CliStep::Answer(j) => assert_eq!(to_value(&j)["error"], "JSON parse error: why"),
        _ => panic!("expected an answer"),
    }
}

#[test]
fn bodies_are_limited_in_characters() {
    let mut e = Server::new().emails[0].email();
    e.text_body = None;
    e.html_body = None;
    e.body_values = StrMap::new();
    e.preview = Some("\u{e9}\u{e9}".to_string());
    let shown = |max: usize| to_value(&serialize_email(&e, false, max));
    assert_eq!(shown(3)["body"], "\u{e9}\u{e9}");
    assert_eq!(shown(3)["body_truncated"], false);
    assert_eq!(shown(1)["body"], "\u{e9}");
    assert_eq!(shown(1)["body_truncated"], true);
}

#[test]
fn test_triage_plan_and_apply() {
    let mut h = Harness::start();
    assert_eq!(
        h.send(r#"{"command": "connect", "account": "test"}"#)["ok"],
        true
    );

    let plan = h.send(
        r#"{
        "command": "triage_suggest",
        "mailbox_id": "mbox-inbox",
        "received_after": "2025-12-01T00:00:00Z",
        "received_before": "2026-01-01T00:00:00Z",
        "limit": 50
    }"#,
    );
    assert_eq!(plan["ok"], true, "triage_suggest failed: {}", plan);
    let plan_id = plan["plan_id"].as_str().expect("plan_id");

    let archive_ids: Vec<&str> = plan["archive"]
        .as_array()
        .unwrap()
        .iter()
        .filter_map(|e| e["id"].as_str())
        .collect();
    let trash_ids: Vec<&str> = plan["trash"]
        .as_array()
        .unwrap()
        .iter()
        .filter_map(|e| e["id"].as_str())
        .collect();

    assert!(archive_ids.contains(&"email-004"));
    assert!(trash_ids.contains(&"email-003"));

    let apply = h.send(&format!(
        r#"{{"command": "apply_triage_plan", "plan_id": "{}"}}"#,
        plan_id
    ));
    assert_eq!(apply["ok"], true, "apply_triage_plan failed: {}", apply);

    let e4 = h.send(r#"{"command": "get_email", "id": "email-004", "headers_only": true}"#);
    let e3 = h.send(r#"{"command": "get_email", "id": "email-003", "headers_only": true}"#);
    assert_eq!(e4["mailbox_ids"][0], "mbox-archive");
    assert_eq!(e3["mailbox_ids"][0], "mbox-trash");
}

#[test]
fn a_plan_changes_nothing_until_it_is_applied() {
    let mut h = Harness::start();
    h.send(r#"{"command": "connect", "account": "test"}"#);
    let plan = h.send(r#"{"command": "triage_suggest", "mailbox_id": "mbox-inbox"}"#);
    assert_eq!(plan["archive"][0]["reason"], "receipts");
    assert_eq!(plan["keep"][0]["reason"], "no rule");
    assert!(h
        .commands
        .iter()
        .all(|c| !matches!(c, BackendCommand::MoveEmail { .. })));
    let resp = h.send(r#"{"command": "apply_triage_plan", "plan_id": "other"}"#);
    assert_eq!(resp["error"], "unknown plan 'other'");
    let resp = h.send(r#"{"command": "apply_triage_plan"}"#);
    assert_eq!(resp["ok"], false);
}
