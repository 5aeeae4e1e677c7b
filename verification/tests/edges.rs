use regex::Regex;
use tmc::backend::dates::{email_received_days, ymd_to_days_since_epoch};
use tmc::backend::files::{download_dir, download_path};
use tmc::backend::offline::handle_offline_command;
use tmc::backend::queue::{
    is_missing_remote_error, next_generated_op_id, restore_policies, snapshot_policies,
};
use tmc::backend::tasks::{Backend, BackendEnv, Output, Reply, Request};
use tmc::backend::{BackendCommand, BackendResponse};
use tmc::cache::{cache_dir, db_path, Cache};
use tmc::compose::{extract_body_text, extract_email_addr, html_to_plain, looks_like_html};
use tmc::config::{
    default_config_path, parse_value, Config, ConfigError, RetentionPolicyConfig,
};
use tmc::data::StrMap;
use tmc::jmap::types::{BodyPart, BodyValue, Email, EmailQueryResult, Mailbox};
use tmc::joining::{part, rejoin};
use tmc::markup::{fill, is_renderable, prepare};
use tmc::rules::{
    apply_rules, compile_rules, execute_rule_actions, extract_custom_headers, filter_noop_actions,
    format_rules_for_display, resolve_mailbox_id, Action, ActionsDef, CompiledCondition,
    ConditionDef, RuleApplication, RuleDef,
};
use tmc::sorting::is_text_le;
use tmc::spam::{model_path, tokenize, Label, RawMessage, SpamModel, Verdict};
use tmc::td_fetch::{get, post, read_reply, settle, Error};
use tmc::tui::html::html_to_terminal;

fn blank_email(id: &str) -> Email {
    Email {
        id: id.to_string(),
        thread_id: None,
        from: None,
        to: None,
        cc: None,
        reply_to: None,
        subject: None,
        received_at: None,
        sent_at: None,
        preview: None,
        text_body: None,
        html_body: None,
        body_values: StrMap::new(),
        keywords: StrMap::new(),
        mailbox_ids: StrMap::new(),
        message_id: None,
        references: None,
        attachments: None,
        extra: StrMap::new(),
    }
}

fn mailbox(id: &str, name: &str, parent: Option<&str>, role: Option<&str>) -> Mailbox {
    Mailbox {
        id: id.to_string(),
        name: name.to_string(),
        parent_id: parent.map(|p| p.to_string()),
        role: role.map(|r| r.to_string()),
        total_emails: 0,
        unread_emails: 0,
        sort_order: 0,
    }
}

fn parse_error(text: &str) -> String {
    match Config::parse(text) {
        Err(ConfigError::Parse(m)) => m,
        _ => panic!("expected an error"),
    }
}

#[test]
fn settings_have_exact_errors() {
    assert_eq!(
        parse_error("[ui]\neditor = \"a\\x\"\n"),
        "line 2: unknown escape sequence '\\x'"
    );
    assert_eq!(
        parse_error("[ui]\neditor = \"a\n"),
        "line 2: unmatched quote in value"
    );
    assert_eq!(
        parse_error("[retention.x]\ndays = 0\n"),
        "line 2: days must be greater than 0 in [retention.x]"
    );
    assert_eq!(parse_error("[nope]\n"), "line 1: unknown section [nope]");
    assert_eq!(
        ConfigError::Io("gone".to_string()).to_string(),
        "failed to read config file: gone"
    );
}

#[test]
fn mail_settings_are_read() {
    let c = Config::parse(
        r#"[ui]
browser = "firefox"
[mail]
reply_from = "Me <me@example.com>"
my_email_regex = "me@"
archive_mailbox_id = "a1"
deleted_mailbox_id = "d1"
[account.x]
well_known_url = "u"
username = "n"
password_command = "p"
"#,
    )
    .unwrap();
    assert_eq!(c.ui.browser.as_deref(), Some("firefox"));
    assert_eq!(c.mail.reply_from.as_deref(), Some("Me <me@example.com>"));
    assert_eq!(c.mail.my_email_regex, "me@");
    assert_eq!(c.mail.archive_mailbox_id.as_deref(), Some("a1"));
    assert_eq!(c.mail.deleted_mailbox_id.as_deref(), Some("d1"));
}

#[test]
fn files_have_their_places() {
    let some = |s: &str| Some(s.to_string());
    assert_eq!(
        default_config_path(some("/x"), some("/h")),
        "/x/tmc/config.toml"
    );
    assert_eq!(
        default_config_path(None, some("/h")),
        "/h/.config/tmc/config.toml"
    );
    assert_eq!(default_config_path(None, None), "config.toml");
    assert_eq!(
        model_path(None, some("/h")),
        "/h/.local/share/tmc/spam-model.json"
    );
    let dir = cache_dir(&None, &some("/h"));
    assert!(dir.starts_with("/h/.cache"));
    assert!(db_path(&dir, "a/b").starts_with(&dir));
}

#[test]
fn days_are_counted() {
    assert_eq!(ymd_to_days_since_epoch(1970, 1, 1), Some(0));
    assert_eq!(ymd_to_days_since_epoch(2000, 3, 1), Some(11_017));
    assert_eq!(ymd_to_days_since_epoch(1969, 12, 31), Some(-1));
    assert_eq!(
        ymd_to_days_since_epoch(2024, 3, 1).unwrap(),
        ymd_to_days_since_epoch(2024, 2, 29).unwrap() + 1
    );
    assert_eq!(ymd_to_days_since_epoch(2024, 13, 1), None);
    let mut e = blank_email("e1");
    e.received_at = Some("2025-01-02T03:04:05Z".to_string());
    assert_eq!(email_received_days(&e), ymd_to_days_since_epoch(2025, 1, 2));
    e.received_at = Some("soon".to_string());
    assert_eq!(email_received_days(&e), None);
}

#[test]
fn html_bodies_become_text() {
    assert_eq!(html_to_plain("<p>Hello</p>"), "Hello\n");
    assert!(looks_like_html("xx <DIV>"));
    assert!(!looks_like_html("plain"));
    let mut e = blank_email("e1");
    e.html_body = Some(vec![BodyPart {
        part_id: "1".to_string(),
        blob_id: None,
        content_type: Some("text/html".to_string()),
        name: None,
        size: None,
    }]);
    e.body_values.insert(
        "1".to_string(),
        BodyValue {
            value: "<p>Hi <em>you</em></p>".to_string(),
            is_encoding_problem: false,
            is_truncated: false,
        },
    );
    assert_eq!(extract_body_text(&e), "Hi *you*\n");
    assert_eq!(
        extract_email_addr("Ann <ann@example.com>").as_deref(),
        Some("ann@example.com")
    );
}

fn header(name: &str, regex: &str) -> ConditionDef {
    ConditionDef::Header {
        header: name.to_string(),
        regex: regex.to_string(),
    }
}

fn rule(name: &str, condition: ConditionDef, mark_read: bool) -> RuleDef {
    RuleDef {
        name: name.to_string(),
        continue_processing: None,
        skip_if_to_me: None,
        match_condition: condition,
        actions: ActionsDef {
            mark_read: Some(mark_read),
            mark_unread: None,
            flag: None,
            unflag: None,
            move_to: Some("Archive".to_string()),
            delete: None,
        },
        triage: None,
    }
}

#[test]
fn connectives_hold_as_they_should() {
    let mut e = blank_email("e1");
    e.subject = Some("hello".to_string());
    let rules = compile_rules(vec![rule("all of none", ConditionDef::All { all: vec![] }, true)])
        .unwrap();
    let none = Regex::new("^$").unwrap();
    assert_eq!(apply_rules(&rules, &[e], &[], &none).len(), 1);
    let mut e = blank_email("e1");
    e.subject = Some("hello".to_string());
    let rules = compile_rules(vec![rule("any of none", ConditionDef::Any { any: vec![] }, true)])
        .unwrap();
    assert!(apply_rules(&rules, &[e], &[], &none).is_empty());
    let message = compile_rules(vec![rule("bad", header("From", "("), true)]).unwrap_err();
    assert!(message.contains("Invalid regex '('"));
}

#[test]
fn settled_messages_are_left_alone() {
    let mut e = blank_email("e1");
    e.subject = Some("hello".to_string());
    e.keywords.insert("$seen".to_string(), true);
    e.mailbox_ids.insert("m2".to_string(), true);
    let boxes = vec![mailbox("m2", "Archive", None, Some("archive"))];
    let rules = compile_rules(vec![rule("r", header("subject", "HELLO|hello"), true)]).unwrap();
    let none = Regex::new("^$").unwrap();
    assert!(apply_rules(&rules, &[e], &boxes, &none).is_empty());
    let left = filter_noop_actions(
        &[Action::MarkRead, Action::Unflag],
        &blank_email("e1"),
        &boxes,
    );
    assert_eq!(left.len(), 1);
}

#[test]
fn rules_are_shown_with_their_patterns() {
    let rules = compile_rules(vec![rule("news", header("X-List", "a\"b"), true)]).unwrap();
    assert_eq!(
        format_rules_for_display(&rules),
        "Rule 1: news\n  Continue processing: no\n  Skip if to me: no\n  \
         Match: X-List =~ /a\"b/\n  Actions: mark_read, move_to=Archive\n"
    );
    assert_eq!(format_rules_for_display(&[]), "No rules defined.");
    assert_eq!(
        extract_custom_headers(&rules),
        vec!["header:X-List:asText".to_string()]
    );
    assert!(matches!(
        &rules[0].condition,
        CompiledCondition::Header { regex, .. } if regex.as_str() == "a\"b"
    ));
}

#[test]
fn actions_become_steps() {
    let boxes = vec![
        mailbox("m1", "INBOX", None, Some("inbox")),
        mailbox("m2", "Archive", None, Some("archive")),
    ];
    let apps = vec![RuleApplication {
        email_id: "e1".to_string(),
        rule_name: "r".to_string(),
        actions: vec![
            Action::MarkRead,
            Action::Move {
                target: "Archive".to_string(),
            },
        ],
    }];
    assert_eq!(execute_rule_actions(&apps, &boxes).len(), 2);
}

#[test]
fn mailboxes_resolve_even_in_circles() {
    let boxes = vec![
        mailbox("m1", "A", Some("m2"), None),
        mailbox("m2", "B", Some("m1"), None),
        mailbox("m3", "Sent", None, Some("sent")),
    ];
    assert_eq!(resolve_mailbox_id("Nope/Sub", &boxes), None);
    assert_eq!(resolve_mailbox_id("SENT", &boxes), Some("m3".to_string()));
    assert_eq!(resolve_mailbox_id("A", &boxes), Some("m1".to_string()));
}

#[test]
fn training_counts_each_word_once() {
    let m = RawMessage::from_bytes(b"Subject: Buy BUY now\r\n\r\n<p>buy buy</p>");
    let mut tokens = tokenize(&m);
    tokens.sort();
    assert_eq!(tokens, vec!["buy", "subj:buy", "subj:now"]);
    let mut model = SpamModel::empty();
    model.train(&m, Label::Spam);
    model.train(&m, Label::Spam);
    model.train(&m, Label::Ham);
    assert_eq!((model.spam_messages(), model.ham_messages()), (2, 1));
    assert!(model.is_trained(1) && !model.is_trained(2));
    assert_eq!(model.verdict(true, false, 1), Verdict::Spam);
    assert_eq!(model.verdict(false, true, 1), Verdict::Ham);
    assert_eq!(model.verdict(false, false, 1), Verdict::Unsure);
    assert_eq!(model.verdict(true, false, 2), Verdict::Unsure);
    assert_eq!(model.evidence(&m).len(), 3);
}

#[test]
fn fetches_are_written_and_read() {
    assert_eq!(
        get("http://a/", &[("accept", "text/xml")], Some(10)).unwrap(),
        "td-fetch 1\nmethod GET\nurl http://a/\nheader accept: text/xml\nlimit 10\nbody 0\n\n"
    );
    assert!(post("http://a/", &[], b"abc", Some(1))
        .unwrap()
        .ends_with("limit 1\nbody 3\n\n"));
    match get("http://a/", &[("x", "a\nb")], None) {
        Err(Error::Malformed(m)) => assert_eq!(m, "header \"x\" carries a control byte"),
        _ => panic!("expected an error"),
    }
    let io = |bytes: &[u8]| match read_reply(bytes) {
        Err(Error::Io(m)) => m,
        _ => panic!("expected an error"),
    };
    assert_eq!(io(b""), "the service closed without a reply");
    assert_eq!(io(b"td-fetch 1"), "a reply line past the bound");
    assert_eq!(io(b"\xff\n"), "a reply line that is not UTF-8");
    assert_eq!(io(b"x\n"), "the reply began \"x\", not \"td-fetch 1\"");
    assert_eq!(io(b"td-fetch 1\nstatus no\n\n"), "status \"no\"");
    assert_eq!(io(b"td-fetch 1\nwhat\n\n"), "reply key \"what\"");
    match settle(b"", Some("pipe".to_string())) {
        Err(e) => assert_eq!(e.to_string(), "fetch service: write: pipe"),
        Ok(_) => panic!("expected an error"),
    }
    assert_eq!(
        Error::Refused("r".to_string()).to_string(),
        "refused by the fetch service: r"
    );
}

#[test]
fn the_cache_keeps_what_it_is_given() {
    let mut c = Cache::new();
    let mut e = blank_email("e1");
    e.mailbox_ids.insert("m1".to_string(), true);
    c.put_emails(&[e]);
    c.put_mailbox_index("m1", &["e1".to_string()]);
    let mut m = mailbox("m1", "INBOX", None, None);
    m.unread_emails = 1;
    m.total_emails = 1;
    c.put_mailboxes(&[m]);
    assert!(c.apply_mark_seen("e1", true));
    assert!(!c.apply_mark_seen("e1", true));
    assert_eq!(c.get_mailboxes().unwrap()[0].unread_emails, 0);
    assert!(c.apply_mark_seen("e1", false));
    assert_eq!(c.get_mailboxes().unwrap()[0].unread_emails, 1);
    assert_eq!(c.apply_mark_mailbox_read("m1"), 1);
    assert!(c.apply_set_flagged("e1", true));
    assert!(c.apply_destroy_email("e1"));
    assert!(!c.apply_destroy_email("e1"));
    assert!(c.get_email("e1").is_none());
}

#[test]
fn offline_commands_are_answered_from_the_cache() {
    let mut cache = Some(Cache::new());
    let mut boxes = vec![];
    let response = handle_offline_command(
        &BackendCommand::GetEmail {
            id: "e1".to_string(),
        },
        &mut cache,
        &mut boxes,
        &Ok(vec![]),
    );
    assert!(matches!(
        response,
        Some(BackendResponse::EmailBody { result: Err(_), .. })
    ));
    let response = handle_offline_command(
        &BackendCommand::MarkEmailRead {
            op_id: 7,
            id: "e1".to_string(),
        },
        &mut cache,
        &mut boxes,
        &Ok(vec![1, 2]),
    );
    assert!(matches!(
        response,
        Some(BackendResponse::EmailMutation { op_id: 7, result: Ok(()), .. })
    ));
    assert_eq!(cache.unwrap().queued_operations()[0].1, vec![1, 2]);
}

#[test]
fn offline_changes_show_when_read() {
    let mut cache = Cache::new();
    cache.put_emails(&[blank_email("e1")]);
    let mut cache = Some(cache);
    let mut boxes = vec![];
    let mut run = |cmd: BackendCommand, payload: Vec<u8>| {
        handle_offline_command(&cmd, &mut cache, &mut boxes, &Ok(payload))
    };
    let id = || "e1".to_string();
    let mut changed = |cmd: BackendCommand| {
        run(cmd, vec![1]);
        match run(BackendCommand::GetEmail { id: id() }, vec![2]) {
            Some(BackendResponse::EmailBody { result: Ok(e), .. }) => Some((
                e.keywords.contains_key("$seen"),
                e.keywords.contains_key("$flagged"),
            )),
            _ => None,
        }
    };
    assert_eq!(
        changed(BackendCommand::MarkEmailRead { op_id: 1, id: id() }),
        Some((true, false))
    );
    assert_eq!(
        changed(BackendCommand::SetEmailFlagged {
            op_id: 2,
            id: id(),
            flagged: true
        }),
        Some((true, true))
    );
    assert_eq!(
        changed(BackendCommand::MarkEmailUnread { op_id: 3, id: id() }),
        Some((false, true))
    );
    assert_eq!(
        changed(BackendCommand::DestroyEmail { op_id: 4, id: id() }),
        None
    );
    let queue = cache.unwrap().queued_operations();
    assert_eq!(queue.len(), 4);
    assert!(queue.iter().all(|(_, payload)| *payload == vec![1]));
}

#[test]
fn numbers_of_changes_go_round() {
    let mut n = u64::MAX;
    assert_eq!(next_generated_op_id(&mut n), u64::MAX);
    assert_eq!(next_generated_op_id(&mut n), 0);
    assert!(is_missing_remote_error("Email not found"));
    assert!(!is_missing_remote_error("timeout"));
}

#[test]
fn policies_survive_the_queue() {
    let policies = vec![RetentionPolicyConfig {
        name: "old".to_string(),
        folder: "Trash".to_string(),
        days: 30,
    }];
    let back = restore_policies(&snapshot_policies(&policies));
    assert_eq!(back[0].name, "old");
    assert_eq!((back[0].folder.as_str(), back[0].days), ("Trash", 30));
}

#[test]
fn texts_are_in_order() {
    assert!(is_text_le("a", "ab"));
    assert!(is_text_le("Z", "a"));
    assert!(!is_text_le("b", "a"));
    assert!(is_text_le("é", "\u{10000}"));
}

#[test]
fn attachments_are_saved_below_the_download_directory() {
    let text = |s: &str| Some(s.to_string());
    assert_eq!(download_dir(text("/d"), text("/home/u"), "/tmp"), "/d");
    assert_eq!(download_dir(None, text("/home/u"), "/tmp"), "/home/u/Downloads");
    assert_eq!(download_dir(None, None, "/tmp"), "/tmp/Downloads");
    assert_eq!(download_path("/d", "a/b\\c.pdf"), "/d/a_b_c.pdf");
}

#[test]
fn markup_is_looked_for_anywhere() {
    assert!(looks_like_html(&(" ".repeat(2000) + "<div>")));
    assert!(!looks_like_html(&" ".repeat(2000)));
}

#[test]
fn markup_out_of_bounds_is_left_as_it_is() {
    let wide = "<table><tr><td colspan=\"18446744073709551615\">a</td>\
                <td colspan=\"2\">b</td></tr></table>";
    let far = "<ol START = 9223372036854775807><li>a<li>b</ol>";
    let least = "<ol start='-9223372036854775808'>x</ol>";
    let hidden = "<td colspan='&#57;99999999999999999999'>";
    let unclear = "<pre title=\"a>b\">c</pre>";
    for html in [wide, far, least, hidden, unclear] {
        assert!(!is_renderable(html));
        assert_eq!(html_to_plain(html), html);
        assert_eq!(html_to_terminal(html), html);
    }
    assert!(!is_renderable(&"<b>".repeat(10_001)));
    assert!(is_renderable(&"<b>".repeat(10_000)));
    assert!(is_renderable(&"a<br>b<BR/><hr ><img src='c'>".repeat(5_000)));
    assert!(!is_renderable(&"<brx>".repeat(10_001)));
    let plain = "<table><tr><td colspan=\"2\">a</td></tr></table><ol start=7><li>x</ol>\
                 <a href=\"https://example.com/?start=1234567\">y</a>";
    assert!(is_renderable(plain));
    assert!(html_to_plain(plain).contains("7. x"));
}

#[test]
fn large_numbers_in_markup_are_rendered() {
    let list = |n: &str| html_to_plain(&format!("<ol start=\"{n}\"><li>x</li></ol>"));
    assert_eq!(list("10000"), "10000. x\n");
    assert_eq!(list("9000000000000000000"), "9000000000000000000. x\n");
    assert_eq!(list("-1"), "-1. x\n");
    assert_eq!(list("9223372036854775809"), "1. x\n");
    let cell = |n: &str| {
        html_to_plain(&format!(
            "<table><tr><td colspan=\"{n}\">a</td><td>b</td></tr></table>"
        ))
    };
    assert_eq!(cell("1000000000"), cell("1"));
    assert_eq!(cell("99999999999999999999"), cell("1"));
    assert!(cell("0").contains('a'));
}

#[test]
fn long_markup_is_rendered() {
    let html = format!("<p>{}</p>", "a<br>".repeat(12_000));
    assert_eq!(html_to_plain(&html).matches('a').count(), 12_000);
    assert_eq!(html_to_terminal(&html).lines().count(), 12_000);
}

#[test]
fn joined_characters_are_rendered() {
    let heart = format!("<p>{} \u{2764}\u{fe0f} x</p>", "a".repeat(78));
    assert_eq!(
        html_to_plain(&heart),
        format!("{} \u{2764}\u{fe0f}\nx\n", "a".repeat(78))
    );
    assert_eq!(html_to_terminal(&heart), html_to_plain(&heart));
    let letters = format!("<p>{} word</p>", "\u{644}\u{627}".repeat(200));
    let rendered = html_to_plain(&letters);
    assert_eq!(rendered.matches("\u{644}\u{627}").count(), 200);
    assert!(rendered.ends_with(" word\n") || rendered.ends_with("\nword\n"));
    for joined in [
        "&#x2764;&#xFE0F;",
        "&#10084&#65039",
        "&#128104;&zwj;&#128105;",
        "\u{1f44b}\u{1f3fd}",
        "\u{1780}\u{17d2}\u{1780}",
        "\u{2d31}\u{2d7f}\u{2d31}",
        "\u{a4f8}\u{a4fc}",
        "\u{16d67}\u{16d67}",
        "\u{2018}\u{fe01}",
        "\u{644}<i>\u{627}</i>",
        "<s>\u{644}\u{627}</s>",
    ] {
        for n in 70..82 {
            let html = format!("<p>{} {joined} {joined} x</p>", "a".repeat(n));
            assert!(html_to_plain(&html).ends_with("x\n"));
            assert!(html_to_terminal(&html).ends_with("x\n"));
            assert!(!html_to_plain(&html).contains('\u{2065}'));
        }
        let word = format!("<p>{} {}</p>", joined.repeat(200), joined);
        assert!(html_to_plain(&word).len() > 200);
        assert!(html_to_terminal(&word).len() > 200);
    }
}

#[test]
fn parted_text_is_rejoined() {
    assert_eq!(part("a\u{fe0f}b"), "a\u{2065}\u{fe0f}b");
    assert_eq!(part("a&#xfe0f;b&zwj;"), "a\u{2065}&#xfe0f;b\u{2065}&zwj;");
    assert_eq!(part("a&#65038 &#39; &amp;"), "a\u{2065}&#65038 &#39; &amp;");
    assert_eq!(part("&#x00000000000000000000000200d"), "\u{2065}&#x00000000000000000000000200d");
    assert_eq!(part("&#99999999999999999999999999"), "&#99999999999999999999999999");
    for text in ["", "plain", "\u{627}\u{644}\u{627}", "x\u{200d}&zwj;y"] {
        assert_eq!(rejoin(&part(text)), text);
    }
    assert_eq!(rejoin("a\u{2065}b"), "ab");
}

#[test]
fn preformatted_text_is_rendered() {
    assert_eq!(fill("<pre>a</pre><PRE\n>\nb"), "<pre>\u{c}a</pre><PRE\n>\n\u{c}b");
    assert_eq!(fill("<pre a='b' c=\"d'e\">\r\nf"), "<pre a='b' c=\"d'e\">\r\n\u{c}f");
    assert_eq!(fill("<prefix>a"), "<prefix>a");
    assert_eq!(prepare("<p>a &amp; b</p>"), "<p>a &amp; b</p>");
    assert_eq!(prepare("<p>\u{2764}\u{fe0f}</p>"), "<p>\u{2764}\u{2065}\u{fe0f}</p>");
    assert_eq!(html_to_plain("<pre>\n a\n  b</pre>"), " a\n  b\n");
    assert_eq!(html_to_plain("<pre class=\"x\">a\tb</pre>"), "a       b\n");
    let unseen = "<table><tr><td><blockquote><pre>\u{200b}\t</pre></blockquote></td></tr></table>";
    assert!(html_to_plain(unseen).contains('\u{200b}'));
    assert!(html_to_terminal(unseen).contains('\u{200b}'));
}

fn environment() -> BackendEnv {
    BackendEnv {
        rules: vec![],
        custom_headers: vec![],
        rules_mailbox_regex: Regex::new("^INBOX$").unwrap(),
        my_email_regex: Regex::new("^$").unwrap(),
    }
}

#[test]
fn later_policies_find_what_earlier_ones_keep() {
    let policy = |name: &str, days: u32| RetentionPolicyConfig {
        name: name.to_string(),
        folder: "Trash".to_string(),
        days,
    };
    let mut backend = Backend::new(None, false);
    backend.state.mailboxes = vec![Mailbox {
        id: "t".to_string(),
        name: "Trash".to_string(),
        parent_id: None,
        role: None,
        total_emails: 2,
        unread_emails: 0,
        sort_order: 0,
    }];
    let env = environment();
    assert!(backend.begin(BackendCommand::PreviewRetentionExpiry {
        policies: vec![policy("long", 300), policy("short", 30), policy("again", 10)],
    }));
    let mut reply = None;
    let mut found = None;
    for _ in 0..1000 {
        match backend.step(&env, reply.take()) {
            Output::Ask(request) => {
                reply = Some(match request {
                    Request::Today => Reply::Day(Ok(ymd_to_days_since_epoch(2025, 6, 1).unwrap())),
                    Request::QueryUncollapsed { position, .. } => Reply::Page(Ok(EmailQueryResult {
                        ids: vec!["old".to_string(), "new".to_string()],
                        total: Some(2),
                        position,
                    })),
                    Request::GetEmails { ids, .. } => Reply::Emails(Ok(ids
                        .iter()
                        .map(|id| {
                            let mut e = blank_email(id);
                            let day = if id == "old" { "2025-03-01" } else { "2025-05-31" };
                            e.received_at = Some(format!("{}T00:00:00Z", day));
                            e
                        })
                        .collect())),
                    Request::GetMailboxes => Reply::Mailboxes(Err("no".to_string())),
                    other => panic!("unexpected {:?}", other),
                });
            }
            Output::Tell(BackendResponse::RetentionPreview { result }) => {
                found = Some(result.unwrap());
            }
            Output::Tell(_) | Output::Continue => {}
            Output::Idle => break,
        }
    }
    let candidates = found.unwrap().candidates;
    assert_eq!(candidates.len(), 1);
    assert_eq!(candidates[0].id, "old");
    assert_eq!(candidates[0].policy, "short");
}

#[test]
fn changes_that_cannot_be_stored_are_refused() {
    for offline in [false, true] {
        let mut cache = Cache::new();
        cache.put_emails(&[blank_email("e1")]);
        let mut backend = Backend::new(Some(cache), offline);
        let env = environment();
        let mut reply = None;
        let mut told = None;
        let mut begun = false;
        for _ in 0..100 {
            match backend.step(&env, reply.take()) {
                Output::Ask(Request::Encode { .. }) => reply = Some(Reply::Payload(Ok(vec![9]))),
                Output::Ask(Request::Store { seq, payload }) => {
                    assert_eq!((seq, payload), (1, vec![9]));
                    reply = Some(Reply::Done(Err("disk full".to_string())));
                }
                Output::Ask(other) => panic!("unexpected {:?}", other),
                Output::Tell(response) => told = Some(response),
                Output::Continue => {}
                Output::Idle if begun => break,
                Output::Idle => {
                    begun = true;
                    backend.begin(BackendCommand::MarkEmailRead {
                        op_id: 3,
                        id: "e1".to_string(),
                    });
                }
            }
        }
        match told {
            Some(BackendResponse::EmailMutation { op_id, result, .. }) => {
                assert_eq!((op_id, result), (3, Err("disk full".to_string())));
            }
            _ => panic!("expected an answer"),
        }
        let cache = backend.state.cache.unwrap();
        assert!(cache.queued_operations().is_empty());
        assert!(!cache.get_email("e1").unwrap().keywords.contains_key("$seen"));
    }
}

#[test]
fn a_queue_is_taken_up_only_in_order() {
    let entry = |n: u64| (n, vec![n as u8]);
    let cache = Cache::with_queue(vec![entry(2), entry(5)]).unwrap();
    assert_eq!(cache.queued_operations(), vec![entry(2), entry(5)]);
    assert_eq!(cache.next_number(), 6);
    assert!(Cache::with_queue(vec![entry(5), entry(2)]).is_none());
    assert!(Cache::with_queue(vec![entry(5), entry(5)]).is_none());
    assert_eq!(Cache::with_queue(vec![]).unwrap().next_number(), 1);
}

#[test]
fn quoted_values_are_read_back() {
    let value = |raw: &str| match parse_value(raw, 4) {
        Ok(v) => v,
        Err(e) => e.to_string(),
    };
    assert_eq!(value(r#" "a\"b\\c\nd\te" # rest"#), "a\"b\\c\nd\te");
    assert_eq!(
        value(r#""abc"#),
        "failed to parse config file: line 4: unmatched quote in value"
    );
}

#[test]
fn deep_markup_within_bounds_is_rendered_or_left() {
    for tag in ["<div>", "<blockquote>", "<b>", "<ul><li>", "<table><tr><td>"] {
        let depth = 10_000 / tag.matches('<').count();
        let html = tag.repeat(depth) + "x";
        assert!(is_renderable(&html));
        assert!(html_to_plain(&html).contains('x'));
    }
}
