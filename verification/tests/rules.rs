use regex::Regex;
use tmc::data::StrMap;
use tmc::jmap::types::{Email, EmailAddress, Mailbox};
use tmc::json::Json;
use tmc::rules::{
    apply_rules, compile_rule, compile_rules, evaluate_condition, extract_custom_headers,
    filter_noop_actions, resolve_mailbox_id, Action, ActionsDef, CompiledCondition, ConditionDef,
    RuleDef,
};

fn make_email(id: &str) -> Email {
    Email {
        id: id.to_string(),
        thread_id: None,
        from: Some(vec![EmailAddress {
            name: Some("Alice".to_string()),
            email: Some("alice@example.com".to_string()),
        }]),
        to: Some(vec![EmailAddress {
            name: Some("Bob".to_string()),
            email: Some("bob@example.com".to_string()),
        }]),
        cc: None,
        reply_to: None,
        subject: Some("Test Subject".to_string()),
        received_at: None,
        sent_at: None,
        preview: None,
        text_body: None,
        html_body: None,
        body_values: StrMap::new(),
        keywords: StrMap::new(),
        mailbox_ids: StrMap::new(),
        message_id: None,
        references: None,
        attachments: None,
        extra: StrMap::new(),
    }
}

fn condition(v: &toml::Value) -> ConditionDef {
    let list = |v: &toml::Value| -> Vec<ConditionDef> {
        v.as_array().unwrap().iter().map(condition).collect()
    };
    if let Some(header) = v.get("header") {
        ConditionDef::Header {
            header: header.as_str().unwrap().to_string(),
            regex: v.get("regex").unwrap().as_str().unwrap().to_string(),
        }
    } else if let Some(all) = v.get("all") {
        ConditionDef::All { all: list(all) }
    } else if let Some(any) = v.get("any") {
        ConditionDef::Any { any: list(any) }
    } else {
        ConditionDef::Not {
            not: Box::new(condition(v.get("not").unwrap())),
        }
    }
}

fn rule_defs(text: &str) -> Vec<RuleDef> {
    let file: toml::Value = toml::from_str(text).unwrap();
    let flag = |v: &toml::Value, key: &str| v.get(key).and_then(|x| x.as_bool());
    file.get("rule")
        .unwrap()
        .as_array()
        .unwrap()
        .iter()
        .map(|r| {
            let actions = r.get("actions").unwrap();
            RuleDef {
                name: r.get("name").unwrap().as_str().unwrap().to_string(),
                continue_processing: flag(r, "continue_processing"),
                skip_if_to_me: flag(r, "skip_if_to_me"),
                match_condition: condition(r.get("match").unwrap()),
                actions: ActionsDef {
                    mark_read: flag(actions, "mark_read"),
                    mark_unread: flag(actions, "mark_unread"),
                    flag: flag(actions, "flag"),
                    unflag: flag(actions, "unflag"),
                    move_to: actions
                        .get("move_to")
                        .and_then(|x| x.as_str())
                        .map(|s| s.to_string()),
                    delete: flag(actions, "delete"),
                },
                triage: None,
            }
        })
        .collect()
}

#[test]
fn test_compile_and_evaluate_header_match() {
    let toml_str = r#"
[[rule]]
name = "from alice"
[rule.match]
header = "From"
regex = "alice@"
[rule.actions]
mark_read = true
"#;
    let rules = compile_rules(rule_defs(toml_str)).unwrap();

    let email = make_email("e1");
    assert!(evaluate_condition(&rules[0].condition, &email));
}

#[test]
fn test_evaluate_no_match() {
    let toml_str = r#"
[[rule]]
name = "from bob"
[rule.match]
header = "From"
regex = "charlie@"
[rule.actions]
mark_read = true
"#;
    let rules = compile_rules(rule_defs(toml_str)).unwrap();

    let email = make_email("e1");
    assert!(!evaluate_condition(&rules[0].condition, &email));
}

#[test]
fn test_evaluate_subject_match() {
    let toml_str = r#"
[[rule]]
name = "subject test"
[rule.match]
header = "Subject"
regex = "(?i)test"
[rule.actions]
flag = true
"#;
    let rules = compile_rules(rule_defs(toml_str)).unwrap();

    let email = make_email("e1");
    assert!(evaluate_condition(&rules[0].condition, &email));
}

#[test]
fn test_evaluate_all_condition() {
    let toml_str = r#"
[[rule]]
name = "all cond"
[rule.match]
all = [
{ header = "From", regex = "alice@" },
{ header = "Subject", regex = "Test" },
]
[rule.actions]
mark_read = true
"#;
    let rules = compile_rules(rule_defs(toml_str)).unwrap();

    let email = make_email("e1");
    assert!(evaluate_condition(&rules[0].condition, &email));
}

#[test]
fn test_evaluate_any_condition() {
    let toml_str = r#"
[[rule]]
name = "any cond"
[rule.match]
any = [
{ header = "From", regex = "charlie@" },
{ header = "From", regex = "alice@" },
]
[rule.actions]
mark_read = true
"#;
    let rules = compile_rules(rule_defs(toml_str)).unwrap();

    let email = make_email("e1");
    assert!(evaluate_condition(&rules[0].condition, &email));
}

#[test]
fn test_evaluate_not_condition() {
    let toml_str = r#"
[[rule]]
name = "not cond"
[rule.match]
not = { header = "From", regex = "charlie@" }
[rule.actions]
mark_read = true
"#;
    let rules = compile_rules(rule_defs(toml_str)).unwrap();

    let email = make_email("e1");
    assert!(evaluate_condition(&rules[0].condition, &email));
}

#[test]
fn test_extract_custom_headers() {
    let toml_str = r#"
[[rule]]
name = "custom header"
[rule.match]
all = [
{ header = "From", regex = "test" },
{ header = "X-Spam-Score", regex = "5" },
]
[rule.actions]
mark_read = true

[[rule]]
name = "another"
[rule.match]
header = "X-Mailing-List"
regex = "dev"
[rule.actions]
flag = true
"#;
    let rules = compile_rules(rule_defs(toml_str)).unwrap();

    let custom = extract_custom_headers(&rules);
    assert!(custom.contains(&"header:X-Spam-Score:asText".to_string()));
    assert!(custom.contains(&"header:X-Mailing-List:asText".to_string()));
    assert_eq!(custom.len(), 2);
}

#[test]
fn test_no_custom_headers_for_standard() {
    let toml_str = r#"
[[rule]]
name = "standard only"
[rule.match]
header = "From"
regex = "test"
[rule.actions]
mark_read = true
"#;
    let rules = compile_rules(rule_defs(toml_str)).unwrap();

    let custom = extract_custom_headers(&rules);
    assert!(custom.is_empty());
}

#[test]
fn test_filter_noop_mark_read_already_seen() {
    let mut email = make_email("e1");
    email.keywords.insert("$seen".to_string(), true);

    let actions = vec![Action::MarkRead];
    let filtered = filter_noop_actions(&actions, &email, &[]);
    assert!(filtered.is_empty());
}

#[test]
fn test_filter_noop_flag_already_flagged() {
    let mut email = make_email("e1");
    email.keywords.insert("$flagged".to_string(), true);

    let actions = vec![Action::Flag];
    let filtered = filter_noop_actions(&actions, &email, &[]);
    assert!(filtered.is_empty());
}

#[test]
fn test_filter_noop_move_already_in_mailbox() {
    let mut email = make_email("e1");
    email.mailbox_ids.insert("mbox-1".to_string(), true);

    let mailboxes = vec![Mailbox {
        id: "mbox-1".to_string(),
        name: "Archive".to_string(),
        parent_id: None,
        role: Some("archive".to_string()),
        total_emails: 0,
        unread_emails: 0,
        sort_order: 0,
    }];

    let actions = vec![Action::Move {
        target: "Archive".to_string(),
    }];
    let filtered = filter_noop_actions(&actions, &email, &mailboxes);
    assert!(filtered.is_empty());
}

#[test]
fn test_apply_rules_stops_after_first_match() {
    let toml_str = r#"
[[rule]]
name = "first"
[rule.match]
header = "From"
regex = "alice@"
[rule.actions]
mark_read = true

[[rule]]
name = "second"
[rule.match]
header = "From"
regex = "alice@"
[rule.actions]
flag = true
"#;
    let rules = compile_rules(rule_defs(toml_str)).unwrap();

    let email = make_email("e1");
    let my_email_regex = Regex::new(".*").unwrap();
    let apps = apply_rules(&rules, &[email], &[], &my_email_regex);
    assert_eq!(apps.len(), 1);
    assert_eq!(apps[0].rule_name, "first");
}

#[test]
fn test_apply_rules_continue_processing() {
    let toml_str = r#"
[[rule]]
name = "first"
continue_processing = true
[rule.match]
header = "From"
regex = "alice@"
[rule.actions]
flag = true

[[rule]]
name = "second"
[rule.match]
header = "Subject"
regex = "Test"
[rule.actions]
mark_read = true
"#;
    let rules = compile_rules(rule_defs(toml_str)).unwrap();

    let email = make_email("e1");
    let my_email_regex = Regex::new(".*").unwrap();
    let apps = apply_rules(&rules, &[email], &[], &my_email_regex);
    assert_eq!(apps.len(), 2);
    assert_eq!(apps[0].rule_name, "first");
    assert_eq!(apps[1].rule_name, "second");
}

#[test]
fn test_skip_if_to_me_does_not_skip_when_to_or_cc_does_not_match() {
    let toml_str = r#"
[[rule]]
name = "match if addressed to me"
skip_if_to_me = true
[rule.match]
header = "From"
regex = "alice@"
[rule.actions]
flag = true
"#;
    let rules = compile_rules(rule_defs(toml_str)).unwrap();

    let email = make_email("e1");
    let my_email_regex = Regex::new("(?i)me@example\\.com").unwrap();
    let apps = apply_rules(&rules, &[email], &[], &my_email_regex);
    assert_eq!(apps.len(), 1);
}

#[test]
fn test_skip_if_to_me_skips_when_to_or_cc_matches() {
    let toml_str = r#"
[[rule]]
name = "match if addressed to me"
skip_if_to_me = true
[rule.match]
header = "From"
regex = "alice@"
[rule.actions]
flag = true
"#;
    let rules = compile_rules(rule_defs(toml_str)).unwrap();

    let mut email = make_email("e1");
    email.to = Some(vec![EmailAddress {
        name: Some("Timmy".to_string()),
        email: Some("me@example.com".to_string()),
    }]);
    let my_email_regex = Regex::new("(?i)me@example\\.com").unwrap();
    let apps = apply_rules(&rules, &[email], &[], &my_email_regex);
    assert!(apps.is_empty());
}

#[test]
fn test_skip_if_to_me_skips_when_cc_matches() {
    let toml_str = r#"
[[rule]]
name = "match if addressed to me"
skip_if_to_me = true
[rule.match]
header = "From"
regex = "alice@"
[rule.actions]
flag = true
"#;
    let rules = compile_rules(rule_defs(toml_str)).unwrap();

    let mut email = make_email("e1");
    email.cc = Some(vec![EmailAddress {
        name: Some("Timmy".to_string()),
        email: Some("me@example.com".to_string()),
    }]);
    let my_email_regex = Regex::new("(?i)me@example\\.com").unwrap();
    let apps = apply_rules(&rules, &[email], &[], &my_email_regex);
    assert!(apps.is_empty());
}

#[test]
fn test_resolve_mailbox_by_name() {
    let mailboxes = vec![Mailbox {
        id: "mbox-1".to_string(),
        name: "Archive".to_string(),
        parent_id: None,
        role: Some("archive".to_string()),
        total_emails: 0,
        unread_emails: 0,
        sort_order: 0,
    }];
    assert_eq!(
        resolve_mailbox_id("Archive", &mailboxes),
        Some("mbox-1".to_string())
    );
}

#[test]
fn test_resolve_mailbox_by_role() {
    let mailboxes = vec![Mailbox {
        id: "mbox-trash".to_string(),
        name: "Deleted Items".to_string(),
        parent_id: None,
        role: Some("trash".to_string()),
        total_emails: 0,
        unread_emails: 0,
        sort_order: 0,
    }];
    assert_eq!(
        resolve_mailbox_id("trash", &mailboxes),
        Some("mbox-trash".to_string())
    );
}

#[test]
fn test_resolve_mailbox_by_path() {
    let mailboxes = vec![
        Mailbox {
            id: "mbox-inbox".to_string(),
            name: "INBOX".to_string(),
            parent_id: None,
            role: Some("inbox".to_string()),
            total_emails: 0,
            unread_emails: 0,
            sort_order: 0,
        },
        Mailbox {
            id: "mbox-alerts".to_string(),
            name: "Alerts".to_string(),
            parent_id: Some("mbox-inbox".to_string()),
            role: None,
            total_emails: 0,
            unread_emails: 0,
            sort_order: 0,
        },
    ];
    assert_eq!(
        resolve_mailbox_id("INBOX/Alerts", &mailboxes),
        Some("mbox-alerts".to_string())
    );
}

#[test]
fn test_custom_header_evaluation() {
    let mut email = make_email("e1");
    email.extra.insert(
        "header:X-Spam-Score:asText".to_string(),
        Json::Text("5.5".to_string()),
    );

    let toml_str = r#"
[[rule]]
name = "spam check"
[rule.match]
header = "X-Spam-Score"
regex = "^[5-9]"
[rule.actions]
mark_read = true
"#;
    let rules = compile_rules(rule_defs(toml_str)).unwrap();

    assert!(evaluate_condition(&rules[0].condition, &email));
}

#[test]
fn test_invalid_regex_returns_error() {
    let toml_str = r#"
[[rule]]
name = "bad regex"
[rule.match]
header = "From"
regex = "[invalid"
[rule.actions]
mark_read = true
"#;
    let result = compile_rule(rule_defs(toml_str).into_iter().next().unwrap());
    assert!(result.is_err());
}

#[test]
fn test_missing_header_returns_false() {
    let mut email = make_email("e1");
    email.cc = None;

    let condition = CompiledCondition::Header {
        header: "CC".to_string(),
        regex: Regex::new("anything").unwrap(),
    };
    assert!(!evaluate_condition(&condition, &email));
}
