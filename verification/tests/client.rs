use tmc::config::AccountConfig;
use tmc::data::StrMap;
use tmc::jmap::client::{
    auth_header, blob_id_in, connect_account, find_refusal, first_answer, read_document,
    resolve_redirect,
    run_password_command, session_parse_error, set_outcome, set_result, CommandOutput, Fetch,
    FetchStep, HttpReply, JmapClient, JmapError, SetOutcome,
};
use tmc::jmap::types::{EmailQueryResponse, JmapAccount, JmapSession};
use tmc::json::{read_json, Json};

fn account() -> AccountConfig {
    AccountConfig {
        name: "test".to_string(),
        well_known_url: "https://mx.example.com/.well-known/jmap".to_string(),
        username: "me@example.com".to_string(),
        password_command: "pass".to_string(),
    }
}

fn session(accounts: &[&str]) -> JmapSession {
    let mut map = StrMap::new();
    for a in accounts {
        map.insert(
            a.to_string(),
            JmapAccount {
                name: a.to_string(),
                is_personal: true,
                is_read_only: false,
            },
        );
    }
    JmapSession {
        username: "me".to_string(),
        api_url: "https://api.example.com/jmap".to_string(),
        download_url: Some(
            "https://dl.example.com/{accountId}/{blobId}/{name}?accept={type}".to_string(),
        ),
        primary_accounts: StrMap::new(),
        accounts: map,
    }
}

fn client() -> JmapClient {
    connect_account(
        &account(),
        "secret",
        Ok((session(&["acc-1"]), "{}".to_string())),
    )
    .unwrap()
}

fn text(j: &Json, key: &str) -> String {
    j.get_text(key).unwrap()
}

fn call(j: &Json) -> (String, &Json) {
    let calls = match j.get("methodCalls") {
        Some(Json::List(v)) => v,
        _ => panic!("no calls"),
    };
    assert_eq!(calls.len(), 1);
    match &calls[0] {
        Json::List(v) => match (&v[0], &v[2]) {
            (Json::Text(m), Json::Text(id)) => {
                assert_eq!(id, "0");
                (m.clone(), &v[1])
            }
            _ => panic!("no method"),
        },
        _ => panic!("no call"),
    }
}

#[test]
fn requests_are_signed_in_base64() {
    assert_eq!(
        auth_header("Aladdin", "open sesame"),
        "Basic QWxhZGRpbjpvcGVuIHNlc2FtZQ=="
    );
    assert_eq!(auth_header("a", "b"), "Basic YTpi");
    assert_eq!(auth_header("", ""), "Basic Og==");
    assert_eq!(auth_header("\u{fffd}\u{fffd}", "~?"), "Basic 77+977+9On4/");
    assert_eq!(client().authorization(), auth_header("me@example.com", "secret"));
}

#[test]
fn redirects_are_resolved() {
    let base = "https://a.example.com/x/y";
    assert_eq!(
        resolve_redirect(base, "http://b.example.com/z"),
        "http://b.example.com/z"
    );
    assert_eq!(resolve_redirect(base, "/z"), "https://a.example.com/z");
    assert_eq!(resolve_redirect(base, "z"), "https://a.example.com/x/z");
    assert_eq!(resolve_redirect("https://a.example.com", "/z"), "https://a.example.com/z");
    assert_eq!(resolve_redirect("nowhere", "/z"), "/z");
    assert_eq!(resolve_redirect("nowhere", "z"), "z");
}

#[test]
fn redirects_come_to_an_end() {
    let mut f = Fetch::new("https://a/x".to_string(), false);
    let mut asked = 0;
    let error = loop {
        match f.next_url() {
            Ok(_) => asked += 1,
            Err(e) => break e,
        }
        let reply = HttpReply::Answer {
            status: 302,
            location: Some("/x".to_string()),
        };
        assert!(matches!(f.on_reply(&reply), FetchStep::Again));
    };
    assert_eq!(asked, 5);
    assert_eq!(error.to_string(), "HTTP error: Too many redirects");
}

#[test]
fn answers_with_errors_are_told() {
    let failed = |blob: bool, reply: HttpReply| -> String {
        match Fetch::new("https://a/x".to_string(), blob).on_reply(&reply) {
            FetchStep::Fail(e) => e.to_string(),
            _ => panic!("expected an error"),
        }
    };
    let refused = |status: u16, body: &str| HttpReply::Refused {
        status,
        location: None,
        body: body.to_string(),
    };
    assert_eq!(
        failed(false, refused(401, "x")),
        "HTTP error: Authentication failed (401 Unauthorized)"
    );
    assert_eq!(failed(true, refused(401, "x")), "HTTP error: HTTP 401 error");
    assert_eq!(
        failed(false, refused(500, "")),
        "HTTP error: HTTP 500 error: (empty response)"
    );
    assert_eq!(
        failed(false, refused(500, &"é".repeat(150))),
        format!("HTTP error: HTTP 500 error: {}", "é".repeat(100))
    );
    assert_eq!(
        failed(false, refused(301, "")),
        "HTTP error: Redirect 301 without Location header"
    );
    assert_eq!(
        failed(false, HttpReply::Failed("no route".to_string())),
        "HTTP error: no route"
    );
    assert!(matches!(
        Fetch::new("u".to_string(), false).on_reply(&HttpReply::Answer {
            status: 200,
            location: None
        }),
        FetchStep::Read
    ));
    assert_eq!(read_document(200, "x".to_string()).unwrap(), "x");
    assert_eq!(
        read_document(204, String::new()).unwrap_err().to_string(),
        "HTTP error: Server returned empty response (status 204)"
    );
    assert_eq!(
        session_parse_error("bad", "{").to_string(),
        "Parse error: Failed to parse session: bad. Response was: {"
    );
}

#[test]
fn accounts_are_connected() {
    let c = client();
    assert_eq!(c.account_id(), "acc-1");
    assert_eq!(c.api_url, "https://api.example.com/jmap");
    assert_eq!(
        connect_account(
            &account(),
            "p",
            Ok((session(&["a", "b"]), "{\"x\":1}".to_string()))
        )
        .unwrap_err(),
        "JMAP discovery error: API error: No mail account found in session response: {\"x\":1}"
    );
    assert_eq!(
        connect_account(&account(), "p", Err(JmapError::Http("down".to_string()))).unwrap_err(),
        "JMAP discovery error: HTTP error: down"
    );
}

#[test]
fn passwords_are_read_from_a_command() {
    let output = |success: bool, stdout: &[u8], stderr: &[u8]| {
        Ok(CommandOutput {
            success,
            status: "exit status: 1".to_string(),
            stdout: stdout.to_vec(),
            stderr: stderr.to_vec(),
        })
    };
    assert_eq!(
        run_password_command(output(true, b" se cret\n\n", b"")).unwrap(),
        " se cret"
    );
    assert_eq!(
        run_password_command(output(false, b"x", b"no\xff key")).unwrap_err(),
        "password command exited with exit status: 1: no\u{fffd} key"
    );
    assert_eq!(
        run_password_command(output(true, b"a\xff", b"")).unwrap_err(),
        "password command output is not valid UTF-8: invalid utf-8 sequence of 1 bytes from index 1"
    );
    assert_eq!(
        run_password_command(Err("no sh".to_string())).unwrap_err(),
        "failed to execute password command: no sh"
    );
}

#[test]
fn requests_name_the_account() {
    let c = client();
    let j = c.get_mailboxes();
    let (method, args) = call(&j);
    assert_eq!(method, "Mailbox/get");
    assert_eq!(text(args, "accountId"), "acc-1");
    assert!(matches!(args.get("ids"), Some(Json::Null)));

    let j = c.query_emails("m1", 50, 10, None);
    let (method, args) = call(&j);
    assert_eq!(method, "Email/query");
    assert_eq!(text(args.get("filter").unwrap(), "inMailbox"), "m1");
    assert_eq!(args.get_number("limit"), Some(50));
    assert_eq!(args.get_number("position"), Some(10));

    let j = c.query_emails("m1", 50, 10, Some("cats"));
    let filter = call(&j).1.get("filter").unwrap();
    assert_eq!(text(filter, "operator"), "AND");
    match filter.get("conditions") {
        Some(Json::List(v)) => {
            assert_eq!(text(&v[0], "inMailbox"), "m1");
            assert_eq!(text(&v[1], "text"), "cats");
        }
        _ => panic!("no conditions"),
    }

    assert!(c.get_emails(&vec![]).is_none());
    let j = c.get_emails(&vec!["e1".to_string()]).unwrap();
    assert_eq!(call(&j).1.get_bool("fetchTextBodyValues"), Some(true));
    let j = c.get_email_raw("e1");
    assert_eq!(call(&j).1.get_bool("fetchTextBodyValues"), None);
    assert_eq!(call(&c.get_email_for_reply("e1")).0, "Email/get");
    assert_eq!(call(&c.get_email("e1")).0, "Email/get");
}

#[test]
fn changes_are_patches() {
    let c = client();
    let patch = |j: &Json| -> String {
        let update = call(j).1.get("update").unwrap();
        format!("{:?}", update.get("e1").unwrap())
    };
    assert!(patch(&c.mark_email_read("e1")).contains("keywords/$seen\", Bool(true)"));
    assert!(patch(&c.mark_email_unread("e1")).contains("keywords/$seen\", Null"));
    assert!(patch(&c.set_email_flagged("e1", true)).contains("keywords/$flagged\", Bool(true)"));
    assert!(patch(&c.set_email_flagged("e1", false)).contains("keywords/$flagged\", Null"));
    assert!(patch(&c.move_email("e1", "m2")).contains("m2"));
}

#[test]
fn files_have_addresses() {
    let mut c = client();
    assert_eq!(
        c.download_blob("b1", "a file", "text/plain").unwrap(),
        "https://dl.example.com/acc-1/b1/a file?accept=text/plain"
    );
    c.download_url = None;
    assert_eq!(
        c.download_blob("b1", "n", "t").unwrap_err().to_string(),
        "API error: No download URL available"
    );
}

#[test]
fn refused_changes_are_told() {
    let done = vec![("Email/set".to_string(), Json::Object(vec![]))];
    assert!(matches!(set_outcome(&done, "e1"), SetOutcome::Done));
    let refused = vec![(
        "Email/set".to_string(),
        Json::Object(vec![(
            "notUpdated".to_string(),
            Json::Object(vec![("e1".to_string(), Json::Null)]),
        )]),
    )];
    let outcome = set_outcome(&refused, "e1");
    assert!(matches!(outcome, SetOutcome::Refused(_)));
    assert_eq!(
        set_result(&outcome, "move email", "{..}")
            .unwrap_err()
            .to_string(),
        "API error: Failed to move email: {..}"
    );
    assert!(matches!(set_outcome(&refused, "e2"), SetOutcome::Done));
    assert!(set_result(&SetOutcome::Done, "x", "y").is_ok());
    let other = vec![("error".to_string(), Json::Null)];
    assert_eq!(
        set_result(&set_outcome(&other, "e1"), "x", "y")
            .unwrap_err()
            .to_string(),
        "API error: Unexpected response for Email/set"
    );
    assert_eq!(
        first_answer(&other, "Mailbox/get").unwrap_err().to_string(),
        "API error: Unexpected response"
    );
}

#[test]
fn the_file_of_a_message_is_found() {
    let entry = |id: Json| {
        vec![(
            "Email/get".to_string(),
            Json::Object(vec![(
                "list".to_string(),
                Json::List(vec![Json::Object(vec![("blobId".to_string(), id)])]),
            )]),
        )]
    };
    assert_eq!(
        blob_id_in(&entry(Json::Text("b7".to_string()))),
        Some("b7".to_string())
    );
    assert_eq!(blob_id_in(&entry(Json::UInt(7))), None);
    assert_eq!(blob_id_in(&vec![]), None);
}

#[test]
fn a_query_keeps_what_it_found() {
    let r = EmailQueryResponse {
        account_id: "a".to_string(),
        query_state: "s".to_string(),
        ids: vec!["e1".to_string()],
        position: 3,
        total: Some(9),
    }
    .result();
    assert_eq!(r.ids, vec!["e1".to_string()]);
    assert_eq!((r.position, r.total), (3, Some(9)));
}

#[test]
fn further_requests_have_their_arguments() {
    let c = client();
    let id = c.account_id().to_string();
    let args = |j: &Json| {
        let (method, a) = call(j);
        let shown = format!("{:?}", a);
        let start = format!("Object([(\"accountId\", Text({:?})), ", id);
        (method, shown.strip_prefix(&start).unwrap().to_string())
    };
    let ids = vec!["a".to_string(), "b".to_string()];
    assert_eq!(
        args(&c.create_mailbox("New")),
        (
            "Mailbox/set".to_string(),
            r#"("create", Object([("new", Object([("name", Text("New"))]))]))])"#.to_string()
        )
    );
    assert_eq!(
        args(&c.delete_mailbox("m")),
        (
            "Mailbox/set".to_string(),
            r#"("destroy", List([Text("m")]))])"#.to_string()
        )
    );
    assert_eq!(
        args(&c.destroy_emails(&ids)),
        (
            "Email/set".to_string(),
            r#"("destroy", List([Text("a"), Text("b")]))])"#.to_string()
        )
    );
    assert_eq!(
        args(&c.mark_emails_read(&ids)),
        (
            "Email/set".to_string(),
            r#"("update", Object([("a", Object([("keywords/$seen", Bool(true))])), ("b", Object([("keywords/$seen", Bool(true))]))]))])"#.to_string()
        )
    );
    assert_eq!(
        args(&c.get_threads(&ids)),
        (
            "Thread/get".to_string(),
            r#"("ids", List([Text("a"), Text("b")]))])"#.to_string()
        )
    );
    assert_eq!(
        args(&c.get_email_keywords(&ids)),
        (
            "Email/get".to_string(),
            r#"("ids", List([Text("a"), Text("b")])), ("properties", List([Text("id"), Text("threadId"), Text("keywords")]))])"#.to_string()
        )
    );
    let extra = vec!["header:X-A:asText".to_string()];
    assert!(c.get_emails_with_extra_properties(&vec![], &extra).is_none());
    let j = c.get_emails_with_extra_properties(&ids, &extra).unwrap();
    assert!(args(&j).1.contains(r#"Text("attachments"), Text("header:X-A:asText")])"#));
}

#[test]
fn queries_can_be_limited_in_time() {
    let c = client();
    let text = |s: &str| Some(s.to_string());
    let j = c.query_emails_between("m", 5, 0, &None, &text("2025-01-01"), &text("2025-02-01"));
    let (method, args) = call(&j);
    assert_eq!(method, "Email/query");
    assert_eq!(
        format!("{:?}", args.get("filter").unwrap()),
        r#"Object([("operator", Text("AND")), ("conditions", List([Object([("inMailbox", Text("m"))]), Object([("after", Text("2025-01-01"))]), Object([("before", Text("2025-02-01"))])]))])"#
    );
    let j = c.query_emails_between("m", 5, 0, &text("cats"), &None, &None);
    assert_eq!(
        format!("{:?}", call(&j).1.get("filter").unwrap()),
        r#"Object([("operator", Text("AND")), ("conditions", List([Object([("inMailbox", Text("m"))]), Object([("text", Text("cats"))])]))])"#
    );
    let j = c.query_emails_uncollapsed("m", 500, 1000);
    let args = call(&j).1;
    assert_eq!(args.get_bool("collapseThreads"), Some(false));
    assert_eq!(args.get_number("limit"), Some(500));
    assert_eq!(args.get_number("position"), Some(1000));
}

#[test]
fn refusals_are_found() {
    let answer = |text: &str| vec![("Mailbox/set".to_string(), read_json(text).unwrap())];
    let refused = answer(r#"{"notCreated": {"new": {"type": "forbidden"}}}"#);
    match find_refusal(&refused, "Mailbox/set", "notCreated", "new") {
        Ok(Some(why)) => assert_eq!(why.get_text("type"), Some("forbidden".to_string())),
        _ => panic!("expected a refusal"),
    }
    assert!(matches!(
        find_refusal(&refused, "Mailbox/set", "notCreated", "other"),
        Ok(None)
    ));
    assert!(matches!(
        find_refusal(&answer("{}"), "Mailbox/set", "notCreated", "new"),
        Ok(None)
    ));
    match find_refusal(&refused, "Email/set", "notCreated", "new") {
        Err(e) => assert_eq!(e.to_string(), "API error: Unexpected response"),
        _ => panic!("expected an error"),
    }
}
