use tmc::config::{parse_colour, Config, ConfigError, Rgb};

// Helper to build a minimal valid config string with [jmap] section
fn jmap_config(extra_ui: &str) -> String {
    format!(
        r#"
{extra_ui}
[jmap]
well_known_url = "https://mx.example.com/.well-known/jmap"
username = "user@example.com"
password_command = "pass show email/example.com"
"#
    )
}

#[test]
fn test_parse_legacy_jmap_config() {
    let toml = r#"
[jmap]
well_known_url = "https://mx.example.com/.well-known/jmap"
username = "user@example.com"
password_command = "pass show email/example.com"

[ui]
page_size = 25
"#;
    let config = Config::parse(toml).unwrap();
    assert_eq!(config.accounts.len(), 1);
    assert_eq!(config.accounts[0].name, "default");
    assert_eq!(
        config.accounts[0].well_known_url,
        "https://mx.example.com/.well-known/jmap"
    );
    assert_eq!(config.accounts[0].username, "user@example.com");
    assert_eq!(
        config.accounts[0].password_command,
        "pass show email/example.com"
    );
    assert_eq!(config.ui.page_size, 25);
    assert!(config.ui.editor.is_none());
    assert_eq!(config.ui.sync_interval_secs, Some(60));
    assert_eq!(config.mail.archive_folder, "archive");
    assert_eq!(config.mail.deleted_folder, "trash");
    assert_eq!(config.mail.rules_mailbox_regex, "^INBOX$");
    assert!(config.mail.retention_policies.is_empty());
}

#[test]
fn test_parse_multi_account_config() {
    let toml = r#"
[ui]
editor = "nvim"
page_size = 100

[account.personal]
well_known_url = "https://mx.example.com/.well-known/jmap"
username = "user@example.com"
password_command = "pass show email/example.com"

[account.work]
well_known_url = "https://mx.work.com/.well-known/jmap"
username = "user@work.com"
password_command = "pass show email/work.com"
"#;
    let config = Config::parse(toml).unwrap();
    assert_eq!(config.accounts.len(), 2);
    assert_eq!(config.accounts[0].name, "personal");
    assert_eq!(config.accounts[0].username, "user@example.com");
    assert_eq!(config.accounts[1].name, "work");
    assert_eq!(config.accounts[1].username, "user@work.com");
    assert_eq!(config.ui.page_size, 100);
    assert_eq!(config.ui.editor.as_deref(), Some("nvim"));
    assert_eq!(config.ui.sync_interval_secs, Some(60));
    assert_eq!(config.mail.archive_folder, "archive");
    assert_eq!(config.mail.deleted_folder, "trash");
    assert_eq!(config.mail.rules_mailbox_regex, "^INBOX$");
}

#[test]
fn test_default_page_size_is_500() {
    let toml = &jmap_config("");
    let config = Config::parse(toml).unwrap();
    assert_eq!(config.ui.page_size, 500);
    assert_eq!(config.ui.sync_interval_secs, Some(60));
}

#[test]
fn test_mouse_config() {
    let toml = &jmap_config("");
    let config = Config::parse(toml).unwrap();
    assert!(config.ui.mouse); // default is true

    let toml = &jmap_config("[ui]\nmouse = false");
    let config = Config::parse(toml).unwrap();
    assert!(!config.ui.mouse);

    let toml = &jmap_config("[ui]\nmouse = true");
    let config = Config::parse(toml).unwrap();
    assert!(config.ui.mouse);
}

#[test]
fn test_sync_interval_config() {
    let toml = &jmap_config("[ui]\nsync_interval_secs = 180");
    let config = Config::parse(toml).unwrap();
    assert_eq!(config.ui.sync_interval_secs, Some(180));

    let toml = &jmap_config("[ui]\nsync_interval_secs = 0");
    let config = Config::parse(toml).unwrap();
    assert_eq!(config.ui.sync_interval_secs, None);
}

#[test]
fn test_parse_missing_url() {
    let toml = r#"
[ui]
page_size = 10
"#;
    assert!(Config::parse(toml).is_err());
}

#[test]
fn test_parse_account_missing_field() {
    let toml = r#"
[account.broken]
well_known_url = "https://mx.example.com/.well-known/jmap"
username = "user@example.com"
"#;
    assert!(Config::parse(toml).is_err());
}

#[test]
fn test_escape_sequences_in_quoted_strings() {
    let toml = r#"
[jmap]
well_known_url = "https://mx.example.com/.well-known/jmap"
username = "user@example.com"
password_command = "pass \"show\" email\\path"
"#;
    let config = Config::parse(toml).unwrap();
    assert_eq!(
        config.accounts[0].password_command,
        "pass \"show\" email\\path"
    );
}

#[test]
fn test_escape_newline_tab() {
    let toml = r#"
[ui]
editor = "vim\t--noplugin"

[jmap]
well_known_url = "https://mx.example.com/.well-known/jmap"
username = "user@example.com"
password_command = "line1\nline2"
"#;
    let config = Config::parse(toml).unwrap();
    assert_eq!(config.ui.editor.as_deref(), Some("vim\t--noplugin"));
    assert_eq!(config.accounts[0].password_command, "line1\nline2");
}

#[test]
fn test_unmatched_quote_error() {
    let toml = r#"
[jmap]
well_known_url = "https://mx.example.com
username = "user@example.com"
password_command = "pass show email"
"#;
    let err = Config::parse(toml).unwrap_err();
    match err {
        ConfigError::Parse(msg) => {
            assert!(msg.contains("unmatched quote"), "got: {}", msg);
            assert!(msg.contains("line 3"), "got: {}", msg);
        }
        _ => panic!("expected Parse error"),
    }
}

#[test]
fn test_unknown_key_in_ui() {
    let toml = &jmap_config("[ui]\nfoo = bar");
    let err = Config::parse(toml).unwrap_err();
    match err {
        ConfigError::Parse(msg) => {
            assert!(msg.contains("unknown key 'foo'"), "got: {}", msg);
            assert!(msg.contains("[ui]"), "got: {}", msg);
        }
        _ => panic!("expected Parse error"),
    }
}

#[test]
fn test_unknown_key_in_jmap() {
    let toml = r#"
[jmap]
well_known_url = "https://mx.example.com/.well-known/jmap"
username = "user@example.com"
password_command = "pass show email"
bogus = "nope"
"#;
    let err = Config::parse(toml).unwrap_err();
    match err {
        ConfigError::Parse(msg) => {
            assert!(msg.contains("unknown key 'bogus'"), "got: {}", msg);
        }
        _ => panic!("expected Parse error"),
    }
}

#[test]
fn test_unknown_key_in_account() {
    let toml = r#"
[account.test]
well_known_url = "https://mx.example.com/.well-known/jmap"
username = "user@example.com"
password_command = "pass show email"
unknown_field = "value"
"#;
    let err = Config::parse(toml).unwrap_err();
    match err {
        ConfigError::Parse(msg) => {
            assert!(msg.contains("unknown key 'unknown_field'"), "got: {}", msg);
        }
        _ => panic!("expected Parse error"),
    }
}

#[test]
fn test_unknown_section_error() {
    let toml = r#"
[bogus]
key = "value"

[jmap]
well_known_url = "https://mx.example.com/.well-known/jmap"
username = "user@example.com"
password_command = "pass show email"
"#;
    let err = Config::parse(toml).unwrap_err();
    match err {
        ConfigError::Parse(msg) => {
            assert!(msg.contains("unknown section [bogus]"), "got: {}", msg);
        }
        _ => panic!("expected Parse error"),
    }
}

#[test]
fn test_invalid_boolean_for_mouse() {
    let toml = &jmap_config("[ui]\nmouse = yes");
    let err = Config::parse(toml).unwrap_err();
    match err {
        ConfigError::Parse(msg) => {
            assert!(msg.contains("invalid boolean"), "got: {}", msg);
            assert!(msg.contains("mouse"), "got: {}", msg);
        }
        _ => panic!("expected Parse error"),
    }
}

#[test]
fn test_invalid_numeric_for_page_size() {
    let toml = &jmap_config("[ui]\npage_size = abc");
    let err = Config::parse(toml).unwrap_err();
    match err {
        ConfigError::Parse(msg) => {
            assert!(msg.contains("invalid numeric"), "got: {}", msg);
            assert!(msg.contains("page_size"), "got: {}", msg);
        }
        _ => panic!("expected Parse error"),
    }
}

#[test]
fn test_invalid_numeric_for_sync_interval() {
    let toml = &jmap_config("[ui]\nsync_interval_secs = not_a_number");
    let err = Config::parse(toml).unwrap_err();
    match err {
        ConfigError::Parse(msg) => {
            assert!(msg.contains("invalid numeric"), "got: {}", msg);
            assert!(msg.contains("sync_interval_secs"), "got: {}", msg);
        }
        _ => panic!("expected Parse error"),
    }
}

#[test]
fn test_inline_comments() {
    let toml = r#"
[ui]
page_size = 50 # half of default
mouse = true # enable mouse

[jmap]
well_known_url = "https://mx.example.com/.well-known/jmap"
username = "user@example.com"
password_command = "pass show email/example.com"
"#;
    let config = Config::parse(toml).unwrap();
    assert_eq!(config.ui.page_size, 50);
    assert!(config.ui.mouse);
}

#[test]
fn test_inline_comment_not_stripped_in_quoted_string() {
    let toml = r#"
[jmap]
well_known_url = "https://mx.example.com/.well-known/jmap"
username = "user@example.com"
password_command = "pass show email # not a comment"
"#;
    let config = Config::parse(toml).unwrap();
    assert_eq!(
        config.accounts[0].password_command,
        "pass show email # not a comment"
    );
}

#[test]
fn test_duplicate_account_names() {
    let toml = r#"
[account.dup]
well_known_url = "https://mx.example.com/.well-known/jmap"
username = "user@example.com"
password_command = "pass show email"

[account.dup]
well_known_url = "https://mx2.example.com/.well-known/jmap"
username = "user2@example.com"
password_command = "pass show email2"
"#;
    let err = Config::parse(toml).unwrap_err();
    match err {
        ConfigError::Parse(msg) => {
            assert!(msg.contains("duplicate account"), "got: {}", msg);
            assert!(msg.contains("dup"), "got: {}", msg);
        }
        _ => panic!("expected Parse error"),
    }
}

#[test]
fn test_empty_account_name() {
    let toml = r#"
[account.]
well_known_url = "https://mx.example.com/.well-known/jmap"
username = "user@example.com"
password_command = "pass show email"
"#;
    let err = Config::parse(toml).unwrap_err();
    match err {
        ConfigError::Parse(msg) => {
            assert!(msg.contains("empty account name"), "got: {}", msg);
        }
        _ => panic!("expected Parse error"),
    }
}

#[test]
fn test_mail_config() {
    let toml = r#"
[mail]
archive_folder = "Archive"
deleted_folder = "Trash"
rules_mailbox_regex = "^INBOX$"

[jmap]
well_known_url = "https://mx.example.com/.well-known/jmap"
username = "user@example.com"
password_command = "pass show email/example.com"
"#;
    let config = Config::parse(toml).unwrap();
    assert_eq!(config.mail.archive_folder, "Archive");
    assert_eq!(config.mail.deleted_folder, "Trash");
    assert_eq!(config.mail.rules_mailbox_regex, "^INBOX$");
}

#[test]
fn test_rules_mailbox_regex_default_and_override() {
    let toml = &jmap_config("");
    let config = Config::parse(toml).unwrap();
    assert_eq!(config.mail.rules_mailbox_regex, "^INBOX$");

    let toml = &jmap_config("[mail]\nrules_mailbox_regex = \"^(INBOX|Alerts)$\"");
    let config = Config::parse(toml).unwrap();
    assert_eq!(config.mail.rules_mailbox_regex, "^(INBOX|Alerts)$");
}

#[test]
fn test_invalid_rules_mailbox_regex() {
    let toml = &jmap_config("[mail]\nrules_mailbox_regex = \"(\"");
    let err = Config::parse(toml).unwrap_err();
    match err {
        ConfigError::Parse(msg) => {
            assert!(msg.contains("invalid regex"), "got: {}", msg);
            assert!(msg.contains("rules_mailbox_regex"), "got: {}", msg);
        }
        _ => panic!("expected Parse error"),
    }
}

#[test]
fn test_retention_policies_config() {
    let toml = r#"
[retention.archive]
folder = "Archive"
days = 365

[retention.trash]
folder = "Trash"
days = 30

[jmap]
well_known_url = "https://mx.example.com/.well-known/jmap"
username = "user@example.com"
password_command = "pass show email/example.com"
"#;
    let config = Config::parse(toml).unwrap();
    assert_eq!(config.mail.retention_policies.len(), 2);
    assert_eq!(config.mail.retention_policies[0].name, "archive");
    assert_eq!(config.mail.retention_policies[0].folder, "Archive");
    assert_eq!(config.mail.retention_policies[0].days, 365);
    assert_eq!(config.mail.retention_policies[1].name, "trash");
    assert_eq!(config.mail.retention_policies[1].folder, "Trash");
    assert_eq!(config.mail.retention_policies[1].days, 30);
}

#[test]
fn test_retention_policy_missing_days() {
    let toml = r#"
[retention.archive]
folder = "Archive"

[jmap]
well_known_url = "https://mx.example.com/.well-known/jmap"
username = "user@example.com"
password_command = "pass show email/example.com"
"#;
    let err = Config::parse(toml).unwrap_err();
    match err {
        ConfigError::Parse(msg) => {
            assert!(msg.contains("missing days"), "got: {}", msg);
        }
        _ => panic!("expected Parse error"),
    }
}

#[test]
fn theme_colours_are_read() {
    let c = Config::parse(&jmap_config(
        "[theme]\nbg = \"#002b36\" # dark\nheader_fg = \"#268BD2\"\n",
    ))
    .unwrap();
    assert_eq!(c.theme.bg, Some(Rgb { r: 0, g: 0x2b, b: 0x36 }));
    assert_eq!(c.theme.header_fg, Some(Rgb { r: 0x26, g: 0x8b, b: 0xd2 }));
    assert_eq!(c.theme.fg, None);
    assert_eq!(c.theme.bold_fg, None);
}

#[test]
fn every_colour_has_its_key() {
    let keys = [
        "bg",
        "fg",
        "bold_fg",
        "selection_bg",
        "selection_fg",
        "status_bg",
        "status_fg",
        "header_fg",
    ];
    for (i, key) in keys.iter().enumerate() {
        let text = format!("[theme]\n{} = \"#0102ff\"\n", key);
        let t = Config::parse(&jmap_config(&text)).unwrap().theme;
        let set = [
            t.bg,
            t.fg,
            t.bold_fg,
            t.selection_bg,
            t.selection_fg,
            t.status_bg,
            t.status_fg,
            t.header_fg,
        ];
        for (j, c) in set.iter().enumerate() {
            if i == j {
                assert_eq!(*c, Some(Rgb { r: 1, g: 2, b: 255 }));
            } else {
                assert_eq!(*c, None);
            }
        }
    }
}

#[test]
fn wrong_theme_settings_are_refused() {
    let error = |text: &str| match Config::parse(&jmap_config(text)) {
        Err(ConfigError::Parse(e)) => e,
        _ => panic!("expected Parse error"),
    };
    assert_eq!(
        error("[theme]\nbg = \"blue\"\n"),
        "line 3: invalid color 'blue' for bg (expected #RRGGBB)"
    );
    assert_eq!(
        error("[theme]\nborder = \"#000000\"\n"),
        "line 3: unknown key 'border' in [theme]"
    );
    assert_eq!(parse_colour("#12345g"), None);
    assert_eq!(parse_colour("#12345"), None);
    assert_eq!(parse_colour("1234567"), None);
    assert_eq!(parse_colour("#aB09fF"), Some(Rgb { r: 0xab, g: 9, b: 255 }));
}
