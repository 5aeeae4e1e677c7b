//! The configuration file: its grammar and the settings that it gives.
//!
//! A file is a list of lines. A line is blank, a comment, a section header in
//! square brackets, or a setting `key = value` of the section before it.

use vstd::prelude::*;

use crate::compose::{join_path, path_join};
use crate::data::Dup;
use crate::pattern::{compile_regex, regex_of};
use crate::text::{
    after_prefix, begins, dec, decimal, find, find_chars, lines, lines_of, number_upto, parse_upto,
    same, slice_text, starts_with, strip_prefix, to_chars, trim, trim_end, trimmed, trimmed_end,
    white,
};

verus! {

broadcast use vstd::seq_lib::group_seq_properties;

/// A colour by its red, green and blue parts.
#[derive(Debug, Clone, Copy, PartialEq, Eq, Structural)]
pub struct Rgb {
    pub r: u8,
    pub g: u8,
    pub b: u8,
}

/// The colours of the console; what is missing is left to the terminal.
#[derive(Debug, Clone, Copy, PartialEq, Eq, Structural)]
pub struct Theme {
    pub bg: Option<Rgb>,
    pub fg: Option<Rgb>,
    pub selection_bg: Option<Rgb>,
    pub selection_fg: Option<Rgb>,
    pub status_bg: Option<Rgb>,
    pub status_fg: Option<Rgb>,
    pub header_fg: Option<Rgb>,
    pub bold_fg: Option<Rgb>,
}

/// An account to connect to.
#[derive(Debug)]
pub struct AccountConfig {
    pub name: String,
    pub well_known_url: String,
    pub username: String,
    pub password_command: String,
}

/// The contents of an `AccountConfig`.
pub struct AccountConfigV {
    pub name: Seq<char>,
    pub well_known_url: Seq<char>,
    pub username: Seq<char>,
    pub password_command: Seq<char>,
}

impl DeepView for AccountConfig {
    type V = AccountConfigV;

    open spec fn deep_view(&self) -> AccountConfigV {
        AccountConfigV {
            name: self.name@,
            well_known_url: self.well_known_url@,
            username: self.username@,
            password_command: self.password_command@,
        }
    }
}

impl Dup for AccountConfig {
    fn dup(&self) -> (r: AccountConfig) {
        AccountConfig {
            name: self.name.dup(),
            well_known_url: self.well_known_url.dup(),
            username: self.username.dup(),
            password_command: self.password_command.dup(),
        }
    }
}

/// How the console behaves.
#[derive(Debug)]
pub struct UiConfig {
    pub editor: Option<String>,
    pub browser: Option<String>,
    pub page_size: u32,
    pub mouse: bool,
    pub sync_interval_secs: Option<u64>,
}

/// The contents of an `UiConfig`.
pub struct UiConfigV {
    pub editor: Option<Seq<char>>,
    pub browser: Option<Seq<char>>,
    pub page_size: u32,
    pub mouse: bool,
    pub sync_interval_secs: Option<u64>,
}

impl DeepView for UiConfig {
    type V = UiConfigV;

    open spec fn deep_view(&self) -> UiConfigV {
        UiConfigV {
            editor: self.editor.deep_view(),
            browser: self.browser.deep_view(),
            page_size: self.page_size,
            mouse: self.mouse,
            sync_interval_secs: self.sync_interval_secs.deep_view(),
        }
    }
}

impl Dup for UiConfig {
    fn dup(&self) -> (r: UiConfig) {
        UiConfig {
            editor: self.editor.dup(),
            browser: self.browser.dup(),
            page_size: self.page_size,
            mouse: self.mouse,
            sync_interval_secs: self.sync_interval_secs.dup(),
        }
    }
}

/// How many days the messages of a folder are kept.
#[derive(Debug)]
pub struct RetentionPolicyConfig {
    pub name: String,
    pub folder: String,
    pub days: u32,
}

/// The contents of a `RetentionPolicyConfig`.
pub struct RetentionPolicyConfigV {
    pub name: Seq<char>,
    pub folder: Seq<char>,
    pub days: u32,
}

impl DeepView for RetentionPolicyConfig {
    type V = RetentionPolicyConfigV;

    open spec fn deep_view(&self) -> RetentionPolicyConfigV {
        RetentionPolicyConfigV {
            name: self.name@,
            folder: self.folder@,
            days: self.days,
        }
    }
}

impl Dup for RetentionPolicyConfig {
    fn dup(&self) -> (r: RetentionPolicyConfig) {
        RetentionPolicyConfig {
            name: self.name.dup(),
            folder: self.folder.dup(),
            days: self.days,
        }
    }
}

/// Where messages go, and how long they stay.
#[derive(Debug)]
pub struct MailConfig {
    pub archive_folder: String,
    pub deleted_folder: String,
    pub archive_mailbox_id: Option<String>,
    pub deleted_mailbox_id: Option<String>,
    pub reply_from: Option<String>,
    pub my_email_regex: String,
    pub rules_mailbox_regex: String,
    pub retention_policies: Vec<RetentionPolicyConfig>,
}

/// The contents of a `MailConfig`.
pub struct MailConfigV {
    pub archive_folder: Seq<char>,
    pub deleted_folder: Seq<char>,
    pub archive_mailbox_id: Option<Seq<char>>,
    pub deleted_mailbox_id: Option<Seq<char>>,
    pub reply_from: Option<Seq<char>>,
    pub my_email_regex: Seq<char>,
    pub rules_mailbox_regex: Seq<char>,
    pub retention_policies: Seq<RetentionPolicyConfigV>,
}

impl DeepView for MailConfig {
    type V = MailConfigV;

    open spec fn deep_view(&self) -> MailConfigV {
        MailConfigV {
            archive_folder: self.archive_folder@,
            deleted_folder: self.deleted_folder@,
            archive_mailbox_id: self.archive_mailbox_id.deep_view(),
            deleted_mailbox_id: self.deleted_mailbox_id.deep_view(),
            reply_from: self.reply_from.deep_view(),
            my_email_regex: self.my_email_regex@,
            rules_mailbox_regex: self.rules_mailbox_regex@,
            retention_policies: self.retention_policies.deep_view(),
        }
    }
}

impl Dup for MailConfig {
    fn dup(&self) -> (r: MailConfig) {
        MailConfig {
            archive_folder: self.archive_folder.dup(),
            deleted_folder: self.deleted_folder.dup(),
            archive_mailbox_id: self.archive_mailbox_id.dup(),
            deleted_mailbox_id: self.deleted_mailbox_id.dup(),
            reply_from: self.reply_from.dup(),
            my_email_regex: self.my_email_regex.dup(),
            rules_mailbox_regex: self.rules_mailbox_regex.dup(),
            retention_policies: self.retention_policies.dup(),
        }
    }
}

/// All settings.
#[derive(Debug)]
pub struct Config {
    pub accounts: Vec<AccountConfig>,
    pub ui: UiConfig,
    pub mail: MailConfig,
    pub theme: Theme,
}

/// The contents of a `Config`.
pub struct ConfigV {
    pub accounts: Seq<AccountConfigV>,
    pub ui: UiConfigV,
    pub mail: MailConfigV,
    pub theme: Theme,
}

impl DeepView for Config {
    type V = ConfigV;

    open spec fn deep_view(&self) -> ConfigV {
        ConfigV {
            accounts: self.accounts.deep_view(),
            ui: self.ui.deep_view(),
            mail: self.mail.deep_view(),
            theme: self.theme,
        }
    }
}

impl Dup for Config {
    fn dup(&self) -> (r: Config) {
        Config {
            accounts: self.accounts.dup(),
            ui: self.ui.dup(),
            mail: self.mail.dup(),
            theme: self.theme,
        }
    }
}

/// Why there are no settings: the file could not be read, or it is not in order.
#[derive(Debug)]
pub enum ConfigError {
    Io(String),
    Parse(String),
}

/// How an error is shown.
pub open spec fn shown_error(e: ConfigError) -> Seq<char> {
    match e {
        ConfigError::Io(s) => "failed to read config file: "@ + s@,
        ConfigError::Parse(s) => "failed to parse config file: "@ + s@,
    }
}

impl ConfigError {
    /// How an error is shown.
    pub fn to_string(&self) -> (r: String)
        ensures
            r@ == shown_error(*self),
    {
        match self {
            ConfigError::Io(s) => {
                let mut r = "failed to read config file: ".to_owned();
                r.append(s.as_str());
                r
            },
            ConfigError::Parse(s) => {
                let mut r = "failed to parse config file: ".to_owned();
                r.append(s.as_str());
                r
            },
        }
    }
}

/// What has been read of an account section.
#[derive(Debug)]
pub struct AccountDraft {
    pub name: String,
    pub well_known_url: Option<String>,
    pub username: Option<String>,
    pub password_command: Option<String>,
}

/// The contents of an `AccountDraft`.
pub struct AccountDraftV {
    pub name: Seq<char>,
    pub well_known_url: Option<Seq<char>>,
    pub username: Option<Seq<char>>,
    pub password_command: Option<Seq<char>>,
}

impl DeepView for AccountDraft {
    type V = AccountDraftV;

    open spec fn deep_view(&self) -> AccountDraftV {
        AccountDraftV {
            name: self.name@,
            well_known_url: self.well_known_url.deep_view(),
            username: self.username.deep_view(),
            password_command: self.password_command.deep_view(),
        }
    }
}

/// What has been read of a retention section.
#[derive(Debug)]
pub struct PolicyDraft {
    pub name: String,
    pub folder: Option<String>,
    pub days: Option<u32>,
}

/// The contents of a `PolicyDraft`.
pub struct PolicyDraftV {
    pub name: Seq<char>,
    pub folder: Option<Seq<char>>,
    pub days: Option<u32>,
}

impl DeepView for PolicyDraft {
    type V = PolicyDraftV;

    open spec fn deep_view(&self) -> PolicyDraftV {
        PolicyDraftV {
            name: self.name@,
            folder: self.folder.deep_view(),
            days: self.days.deep_view(),
        }
    }
}

/// What has been read of a configuration file.
#[derive(Debug)]
pub struct Draft {
    pub section: String,
    pub ui: UiConfig,
    pub archive_folder: String,
    pub deleted_folder: String,
    pub archive_mailbox_id: Option<String>,
    pub deleted_mailbox_id: Option<String>,
    pub reply_from: Option<String>,
    pub my_email_regex: String,
    pub rules_mailbox_regex: String,
    pub jmap: AccountDraft,
    pub accounts: Vec<AccountDraft>,
    pub policies: Vec<PolicyDraft>,
    pub theme: Theme,
}

/// The contents of a `Draft`.
pub struct DraftV {
    pub section: Seq<char>,
    pub ui: UiConfigV,
    pub archive_folder: Seq<char>,
    pub deleted_folder: Seq<char>,
    pub archive_mailbox_id: Option<Seq<char>>,
    pub deleted_mailbox_id: Option<Seq<char>>,
    pub reply_from: Option<Seq<char>>,
    pub my_email_regex: Seq<char>,
    pub rules_mailbox_regex: Seq<char>,
    pub jmap: AccountDraftV,
    pub accounts: Seq<AccountDraftV>,
    pub policies: Seq<PolicyDraftV>,
    pub theme: Theme,
}

impl DeepView for Draft {
    type V = DraftV;

    open spec fn deep_view(&self) -> DraftV {
        DraftV {
            section: self.section@,
            ui: self.ui.deep_view(),
            archive_folder: self.archive_folder@,
            deleted_folder: self.deleted_folder@,
            archive_mailbox_id: self.archive_mailbox_id.deep_view(),
            deleted_mailbox_id: self.deleted_mailbox_id.deep_view(),
            reply_from: self.reply_from.deep_view(),
            my_email_regex: self.my_email_regex@,
            rules_mailbox_regex: self.rules_mailbox_regex@,
            jmap: self.jmap.deep_view(),
            accounts: self.accounts.deep_view(),
            policies: self.policies.deep_view(),
            theme: self.theme,
        }
    }
}

// ---------------------------------------------------------------------------
// Values
// ---------------------------------------------------------------------------

/// A message about a line of the file.
pub open spec fn at_line(n: nat, msg: Seq<char>) -> Seq<char> {
    "line "@ + decimal(n) + ": "@ + msg
}

/// A message with a quoted word between two parts.
pub open spec fn quoting(a: Seq<char>, word: Seq<char>, b: Seq<char>) -> Seq<char> {
    a + word + b
}

fn line_error(n: usize, msg: &str) -> (r: String)
    ensures
        r@ == at_line(n as nat, msg@),
{
    let mut s = "line ".to_owned();
    s.append(dec(n as u64).as_str());
    s.append(": ");
    s.append(msg);
    s
}

fn quote(a: &str, word: &str, b: &str) -> (r: String)
    ensures
        r@ == quoting(a@, word@, b@),
{
    let mut s = a.to_owned();
    s.append(word);
    s.append(b);
    s
}

/// What a text in quotes denotes.
pub enum Unescaped {
    Text(Seq<char>),
    Unknown(char),
    Trailing,
}

/// What the rest of a quoted text from `i` on denotes, after `acc`.
pub open spec fn unescape(s: Seq<char>, i: int, acc: Seq<char>) -> Unescaped
    decreases s.len() - i,
{
    if i >= s.len() {
        Unescaped::Text(acc)
    } else if s[i] != '\\' {
        unescape(s, i + 1, acc.push(s[i]))
    } else if i + 1 >= s.len() {
        Unescaped::Trailing
    } else if s[i + 1] == '"' {
        unescape(s, i + 2, acc.push('"'))
    } else if s[i + 1] == '\\' {
        unescape(s, i + 2, acc.push('\\'))
    } else if s[i + 1] == 'n' {
        unescape(s, i + 2, acc.push('\n'))
    } else if s[i + 1] == 't' {
        unescape(s, i + 2, acc.push('\t'))
    } else {
        Unescaped::Unknown(s[i + 1])
    }
}

/// What a quoted text on line `n` denotes, or the error.
pub open spec fn unescaped(s: Seq<char>, n: nat) -> Result<Seq<char>, Seq<char>> {
    match unescape(s, 0, Seq::empty()) {
        Unescaped::Text(t) => Ok(t),
        Unescaped::Unknown(c) => Err(
            at_line(n, quoting("unknown escape sequence '\\"@, seq![c], "'"@)),
        ),
        Unescaped::Trailing => Err(at_line(n, "trailing backslash in string"@)),
    }
}

/// What a quoted text denotes. The text comes without the quotes.
pub fn parse_escape_sequences(s: &str, line_num: usize) -> (r: Result<String, ConfigError>)
    ensures
        match r {
            Ok(t) => unescaped(s@, line_num as nat) == Ok::<Seq<char>, Seq<char>>(t@),
            Err(e) => e is Parse && unescaped(s@, line_num as nat) == Err::<Seq<char>, Seq<char>>(
                e->Parse_0@,
            ),
        },
{
    let v = to_chars(s);
    let mut result = String::new();
    let mut i: usize = 0;
    while i < v.len()
        invariant
            v@ == s@,
            i <= v@.len(),
            unescape(s@, 0, Seq::empty()) == unescape(s@, i as int, result@),
        decreases v@.len() - i,
    {
        if v[i] != '\\' {
            result.push(v[i]);
            i = i + 1;
        } else if i + 1 >= v.len() {
            return Err(ConfigError::Parse(line_error(line_num, "trailing backslash in string")));
        } else {
            let c = v[i + 1];
            if c == '"' {
                result.push('"');
            } else if c == '\\' {
                result.push('\\');
            } else if c == 'n' {
                result.push('\n');
            } else if c == 't' {
                result.push('\t');
            } else {
                let mut word = String::new();
                word.push(c);
                assert(word@ =~= seq![c]);
                let msg = quote("unknown escape sequence '\\", word.as_str(), "'");
                return Err(ConfigError::Parse(line_error(line_num, msg.as_str())));
            }
            i = i + 2;
        }
    }
    Ok(result)
}

/// An unquoted value without the comment after it.
pub open spec fn without_comment(s: Seq<char>) -> Seq<char> {
    match find(s, " #"@) {
        Some(i) => trimmed_end(s.subrange(0, i)),
        None => s,
    }
}

/// An unquoted value without the comment after it.
pub fn strip_inline_comment(value: &str) -> (r: String)
    ensures
        r@ == without_comment(value@),
{
    let v = to_chars(value);
    let p = to_chars(" #");
    match find_chars(&v, &p, 0) {
        Some(i) => trim_end(slice_text(&v, 0, i).as_str()),
        None => value.to_owned(),
    }
}

/// The position at or after `i` of the quote that ends a quoted text; a backslash
/// hides the character after it.
pub open spec fn closing_quote(s: Seq<char>, i: int) -> Option<int>
    decreases s.len() + 2 - i,
{
    if i >= s.len() {
        None
    } else if s[i] == '\\' {
        closing_quote(s, i + 2)
    } else if s[i] == '"' {
        Some(i)
    } else {
        closing_quote(s, i + 1)
    }
}

/// The value that stands behind the equals sign of line `n`.
pub open spec fn value_of(raw: Seq<char>, n: nat) -> Result<Seq<char>, Seq<char>> {
    match after_prefix(trimmed(raw), seq!['"']) {
        Some(inner) => match closing_quote(inner, 0) {
            Some(end) => unescaped(inner.subrange(0, end), n),
            None => Err(at_line(n, "unmatched quote in value"@)),
        },
        None => Ok(without_comment(trimmed(raw))),
    }
}

/// The value that stands behind the equals sign of a line.
pub fn parse_value(raw_value: &str, line_num: usize) -> (r: Result<String, ConfigError>)
    ensures
        match r {
            Ok(t) => value_of(raw_value@, line_num as nat) == Ok::<Seq<char>, Seq<char>>(t@),
            Err(e) => e is Parse && value_of(raw_value@, line_num as nat) == Err::<
                Seq<char>,
                Seq<char>,
            >(e->Parse_0@),
        },
{
    let t = trim(raw_value);
    let v = to_chars(t.as_str());
    if v.len() > 0 && v[0] == '"' {
        let ghost inner = v@.subrange(1, v@.len() as int);
        assert(v@.subrange(0, 1) =~= seq!['"']);
        let mut i: usize = 1;
        while i < v.len()
            invariant
                v@ == trimmed(raw_value@),
                1 <= i,
                inner == v@.subrange(1, v@.len() as int),
                after_prefix(v@, seq!['"']) == Some(inner),
                closing_quote(inner, 0) == closing_quote(inner, i - 1),
            decreases v@.len() + 2 - i,
        {
            if v[i] == '\\' {
                if i + 1 >= v.len() {
                    assert(closing_quote(inner, i + 1) is None);
                    return Err(
                        ConfigError::Parse(line_error(line_num, "unmatched quote in value")),
                    );
                }
                i = i + 2;
            } else if v[i] == '"' {
                let body = slice_text(&v, 1, i);
                assert(body@ =~= inner.subrange(0, i - 1));
                return parse_escape_sequences(body.as_str(), line_num);
            } else {
                i = i + 1;
            }
        }
        Err(ConfigError::Parse(line_error(line_num, "unmatched quote in value")))
    } else {
        proof {
            if begins(v@, seq!['"']) {
                assert(v@.subrange(0, 1)[0] == '"');
            }
        }
        Ok(strip_inline_comment(t.as_str()))
    }
}

// ---------------------------------------------------------------------------
// Lines
// ---------------------------------------------------------------------------

/// The theme that leaves all colours to the terminal.
pub open spec fn plain_theme() -> Theme {
    Theme {
        bg: None,
        fg: None,
        selection_bg: None,
        selection_fg: None,
        status_bg: None,
        status_fg: None,
        header_fg: None,
        bold_fg: None,
    }
}

/// What is known before the first line.
pub open spec fn blank_draft() -> DraftV {
    DraftV {
        section: Seq::empty(),
        ui: UiConfigV {
            editor: None,
            browser: None,
            page_size: 500,
            mouse: true,
            sync_interval_secs: Some(60),
        },
        archive_folder: "archive"@,
        deleted_folder: "trash"@,
        archive_mailbox_id: None,
        deleted_mailbox_id: None,
        reply_from: None,
        my_email_regex: "^$"@,
        rules_mailbox_regex: "^INBOX$"@,
        jmap: AccountDraftV {
            name: "default"@,
            well_known_url: None,
            username: None,
            password_command: None,
        },
        accounts: Seq::empty(),
        policies: Seq::empty(),
        theme: plain_theme(),
    }
}

/// The first account at or after `i` with a name, or the number of accounts.
pub open spec fn account_index(s: Seq<AccountDraftV>, name: Seq<char>, i: int) -> int
    decreases s.len() - i,
{
    if i >= s.len() {
        s.len() as int
    } else if s[i].name == name {
        i
    } else {
        account_index(s, name, i + 1)
    }
}

/// The first policy at or after `i` with a name, or the number of policies.
pub open spec fn policy_index(s: Seq<PolicyDraftV>, name: Seq<char>, i: int) -> int
    decreases s.len() - i,
{
    if i >= s.len() {
        s.len() as int
    } else if s[i].name == name {
        i
    } else {
        policy_index(s, name, i + 1)
    }
}

/// Whether sections of this name exist.
pub open spec fn known_section(name: Seq<char>) -> bool {
    ||| name == "ui"@
    ||| name == "mail"@
    ||| name == "jmap"@
    ||| name == "theme"@
    ||| begins(name, "account."@)
    ||| begins(name, "retention."@)
}

/// What a section header on line `n` adds.
pub open spec fn header_step(d: DraftV, name: Seq<char>, n: nat) -> Result<DraftV, Seq<char>> {
    if !known_section(name) {
        Err(at_line(n, quoting("unknown section ["@, name, "]"@)))
    } else {
        match (after_prefix(name, "account."@), after_prefix(name, "retention."@)) {
            (Some(a), _) => if a.len() == 0 {
                Err(at_line(n, "empty account name in [account.]"@))
            } else if account_index(d.accounts, a, 0) < d.accounts.len() {
                Err(at_line(n, quoting("duplicate account name '"@, a, "'"@)))
            } else {
                Ok(
                    DraftV {
                        section: name,
                        accounts: d.accounts.push(
                            AccountDraftV {
                                name: a,
                                well_known_url: None,
                                username: None,
                                password_command: None,
                            },
                        ),
                        ..d
                    },
                )
            },
            (None, Some(p)) => if p.len() == 0 {
                Err(at_line(n, "empty policy name in [retention.]"@))
            } else if policy_index(d.policies, p, 0) < d.policies.len() {
                Err(at_line(n, quoting("duplicate retention policy name '"@, p, "'"@)))
            } else {
                Ok(
                    DraftV {
                        section: name,
                        policies: d.policies.push(
                            PolicyDraftV { name: p, folder: None, days: None },
                        ),
                        ..d
                    },
                )
            },
            (None, None) => Ok(DraftV { section: name, ..d }),
        }
    }
}

/// A message that a number is wrong.
pub open spec fn bad_number(n: nat, value: Seq<char>, key: Seq<char>) -> Seq<char> {
    at_line(n, quoting("invalid numeric value '"@, value, quoting("' for "@, key, Seq::empty())))
}

/// A message that a key does not exist.
pub open spec fn bad_key(n: nat, key: Seq<char>, section: Seq<char>) -> Seq<char> {
    at_line(n, quoting("unknown key '"@, key, quoting("' in ["@, section, "]"@)))
}

/// What a setting of the section `ui` does.
pub open spec fn ui_setting(u: UiConfigV, key: Seq<char>, value: Seq<char>, n: nat) -> Result<
    UiConfigV,
    Seq<char>,
> {
    if key == "editor"@ {
        Ok(UiConfigV { editor: Some(value), ..u })
    } else if key == "browser"@ {
        Ok(UiConfigV { browser: Some(value), ..u })
    } else if key == "page_size"@ {
        match number_upto(value, u32::MAX as nat) {
            Some(v) => Ok(UiConfigV { page_size: v as u32, ..u }),
            None => Err(bad_number(n, value, key)),
        }
    } else if key == "mouse"@ {
        if value == "true"@ {
            Ok(UiConfigV { mouse: true, ..u })
        } else if value == "false"@ {
            Ok(UiConfigV { mouse: false, ..u })
        } else {
            Err(
                at_line(
                    n,
                    quoting(
                        "invalid boolean value '"@,
                        value,
                        "' for mouse (expected true or false)"@,
                    ),
                ),
            )
        }
    } else if key == "sync_interval_secs"@ {
        match number_upto(value, u64::MAX as nat) {
            Some(v) => Ok(
                UiConfigV {
                    sync_interval_secs: if v == 0 {
                        None
                    } else {
                        Some(v as u64)
                    },
                    ..u
                },
            ),
            None => Err(bad_number(n, value, key)),
        }
    } else {
        Err(bad_key(n, key, "ui"@))
    }
}

/// What a setting of the section `mail` does.
pub open spec fn mail_setting(d: DraftV, key: Seq<char>, value: Seq<char>, n: nat) -> Result<
    DraftV,
    Seq<char>,
> {
    if key == "archive_folder"@ {
        Ok(DraftV { archive_folder: value, ..d })
    } else if key == "deleted_folder"@ {
        Ok(DraftV { deleted_folder: value, ..d })
    } else if key == "archive_mailbox_id"@ {
        Ok(DraftV { archive_mailbox_id: Some(value), ..d })
    } else if key == "deleted_mailbox_id"@ {
        Ok(DraftV { deleted_mailbox_id: Some(value), ..d })
    } else if key == "my_email_regex"@ {
        Ok(DraftV { my_email_regex: value, ..d })
    } else if key == "reply_from"@ {
        Ok(DraftV { reply_from: Some(value), ..d })
    } else if key == "rules_mailbox_regex"@ {
        match regex_of(value) {
            Ok(_) => Ok(DraftV { rules_mailbox_regex: value, ..d }),
            Err(e) => Err(
                at_line(
                    n,
                    quoting(
                        "invalid regex '"@,
                        value,
                        quoting("' for rules_mailbox_regex: "@, e, Seq::empty()),
                    ),
                ),
            ),
        }
    } else {
        Err(bad_key(n, key, "mail"@))
    }
}

/// The value of a hexadecimal digit.
pub open spec fn hex_value(c: char) -> Option<int> {
    if '0' <= c <= '9' {
        Some(c as int - '0' as int)
    } else if 'a' <= c <= 'f' {
        Some(c as int - 'a' as int + 10)
    } else if 'A' <= c <= 'F' {
        Some(c as int - 'A' as int + 10)
    } else {
        None
    }
}

/// The number that two hexadecimal digits write.
pub open spec fn hex_pair(high: char, low: char) -> Option<int> {
    match (hex_value(high), hex_value(low)) {
        (Some(h), Some(l)) => Some(16 * h + l),
        _ => None,
    }
}

/// The colour that a text of the form `#RRGGBB` writes.
pub open spec fn colour_of(s: Seq<char>) -> Option<Rgb> {
    if s.len() == 7 && s[0] == '#' {
        match (hex_pair(s[1], s[2]), hex_pair(s[3], s[4]), hex_pair(s[5], s[6])) {
            (Some(r), Some(g), Some(b)) => Some(Rgb { r: r as u8, g: g as u8, b: b as u8 }),
            _ => None,
        }
    } else {
        None
    }
}

/// A theme with a colour set; `None` for a key that themes lack.
pub open spec fn with_colour(t: Theme, key: Seq<char>, c: Rgb) -> Option<Theme> {
    if key == "bg"@ {
        Some(Theme { bg: Some(c), ..t })
    } else if key == "fg"@ {
        Some(Theme { fg: Some(c), ..t })
    } else if key == "bold_fg"@ {
        Some(Theme { bold_fg: Some(c), ..t })
    } else if key == "selection_bg"@ {
        Some(Theme { selection_bg: Some(c), ..t })
    } else if key == "selection_fg"@ {
        Some(Theme { selection_fg: Some(c), ..t })
    } else if key == "status_bg"@ {
        Some(Theme { status_bg: Some(c), ..t })
    } else if key == "status_fg"@ {
        Some(Theme { status_fg: Some(c), ..t })
    } else if key == "header_fg"@ {
        Some(Theme { header_fg: Some(c), ..t })
    } else {
        None
    }
}

/// What a setting of the section `theme` does.
pub open spec fn theme_setting(t: Theme, key: Seq<char>, value: Seq<char>, n: nat) -> Result<
    Theme,
    Seq<char>,
> {
    let c = colour_of(value);
    let shade = match c {
        Some(c) => c,
        None => Rgb { r: 0, g: 0, b: 0 },
    };
    match (with_colour(t, key, shade), c) {
        (None, _) => Err(bad_key(n, key, "theme"@)),
        (Some(_), None) => Err(
            at_line(
                n,
                quoting(
                    "invalid color '"@,
                    value,
                    quoting("' for "@, key, " (expected #RRGGBB)"@),
                ),
            ),
        ),
        (Some(u), Some(_)) => Ok(u),
    }
}

/// What a setting of an account does; `None` for a key that accounts lack.
pub open spec fn account_setting(a: AccountDraftV, key: Seq<char>, value: Seq<char>) -> Option<
    AccountDraftV,
> {
    if key == "well_known_url"@ {
        Some(AccountDraftV { well_known_url: Some(value), ..a })
    } else if key == "username"@ {
        Some(AccountDraftV { username: Some(value), ..a })
    } else if key == "password_command"@ {
        Some(AccountDraftV { password_command: Some(value), ..a })
    } else {
        None
    }
}

/// What a setting of a retention policy does.
pub open spec fn policy_setting(
    p: PolicyDraftV,
    section: Seq<char>,
    key: Seq<char>,
    value: Seq<char>,
    n: nat,
) -> Result<PolicyDraftV, Seq<char>> {
    if key == "folder"@ {
        Ok(PolicyDraftV { folder: Some(value), ..p })
    } else if key == "days"@ {
        match number_upto(value, u32::MAX as nat) {
            Some(v) => if v == 0 {
                Err(
                    at_line(
                        n,
                        quoting(
                            "days must be greater than 0 in [retention."@,
                            p.name,
                            "]"@,
                        ),
                    ),
                )
            } else {
                Ok(PolicyDraftV { days: Some(v as u32), ..p })
            },
            None => Err(bad_number(n, value, key)),
        }
    } else {
        Err(bad_key(n, key, section))
    }
}

/// What a setting on line `n` does.
pub open spec fn setting_step(d: DraftV, key: Seq<char>, value: Seq<char>, n: nat) -> Result<
    DraftV,
    Seq<char>,
> {
    if d.section == "ui"@ {
        match ui_setting(d.ui, key, value, n) {
            Ok(u) => Ok(DraftV { ui: u, ..d }),
            Err(e) => Err(e),
        }
    } else if d.section == "mail"@ {
        mail_setting(d, key, value, n)
    } else if d.section == "jmap"@ {
        match account_setting(d.jmap, key, value) {
            Some(a) => Ok(DraftV { jmap: a, ..d }),
            None => Err(bad_key(n, key, "jmap"@)),
        }
    } else if d.section == "theme"@ {
        match theme_setting(d.theme, key, value, n) {
            Ok(theme) => Ok(DraftV { theme, ..d }),
            Err(e) => Err(e),
        }
    } else {
        match (after_prefix(d.section, "account."@), after_prefix(d.section, "retention."@)) {
            (Some(name), _) => {
                let i = account_index(d.accounts, name, 0);
                if i < d.accounts.len() {
                    match account_setting(d.accounts[i], key, value) {
                        Some(a) => Ok(DraftV { accounts: d.accounts.update(i, a), ..d }),
                        None => Err(bad_key(n, key, d.section)),
                    }
                } else {
                    Ok(d)
                }
            },
            (None, Some(name)) => {
                let i = policy_index(d.policies, name, 0);
                if i < d.policies.len() {
                    match policy_setting(d.policies[i], d.section, key, value, n) {
                        Ok(p) => Ok(DraftV { policies: d.policies.update(i, p), ..d }),
                        Err(e) => Err(e),
                    }
                } else {
                    Ok(d)
                }
            },
            (None, None) => Ok(d),
        }
    }
}

/// What line `n` does.
pub open spec fn line_step(d: DraftV, line: Seq<char>, n: nat) -> Result<DraftV, Seq<char>> {
    let t = trimmed(line);
    if t.len() == 0 || t[0] == '#' {
        Ok(d)
    } else if t[0] == '[' && t.last() == ']' {
        header_step(d, t.subrange(1, t.len() - 1), n)
    } else {
        match find(t, seq!['=']) {
            Some(p) => match value_of(t.subrange(p + 1, t.len() as int), n) {
                Ok(v) => setting_step(d, trimmed(t.subrange(0, p)), v, n),
                Err(e) => Err(e),
            },
            None => Ok(d),
        }
    }
}

/// What the first `k` lines say.
pub open spec fn drafted(ls: Seq<Seq<char>>, k: int) -> Result<DraftV, Seq<char>>
    decreases k,
{
    if k <= 0 {
        Ok(blank_draft())
    } else {
        match drafted(ls, k - 1) {
            Ok(d) => line_step(d, ls[k - 1], k as nat),
            Err(e) => Err(e),
        }
    }
}

fn account_at(v: &Vec<AccountDraft>, name: &str) -> (r: usize)
    ensures
        r == account_index(v.deep_view(), name@, 0),
        r <= v@.len(),
{
    let mut i: usize = 0;
    while i < v.len()
        invariant
            i <= v@.len(),
            account_index(v.deep_view(), name@, 0) == account_index(v.deep_view(), name@, i as int),
        decreases v@.len() - i,
    {
        assert(v.deep_view()[i as int] == v@[i as int].deep_view());
        if same(v[i].name.as_str(), name) {
            return i;
        }
        i = i + 1;
    }
    i
}

fn policy_at(v: &Vec<PolicyDraft>, name: &str) -> (r: usize)
    ensures
        r == policy_index(v.deep_view(), name@, 0),
        r <= v@.len(),
{
    let mut i: usize = 0;
    while i < v.len()
        invariant
            i <= v@.len(),
            policy_index(v.deep_view(), name@, 0) == policy_index(v.deep_view(), name@, i as int),
        decreases v@.len() - i,
    {
        assert(v.deep_view()[i as int] == v@[i as int].deep_view());
        if same(v[i].name.as_str(), name) {
            return i;
        }
        i = i + 1;
    }
    i
}

fn open_section(d: &mut Draft, name: &str, n: usize) -> (r: Result<(), String>)
    ensures
        match r {
            Ok(_) => header_step(old(d).deep_view(), name@, n as nat) == Ok::<DraftV, Seq<char>>(
                final(d).deep_view(),
            ),
            Err(e) => header_step(old(d).deep_view(), name@, n as nat) == Err::<DraftV, Seq<char>>(
                e@,
            ),
        },
{
    let known = same(name, "ui") || same(name, "mail") || same(name, "jmap") || same(name, "theme")
        || starts_with(name, "account.") || starts_with(name, "retention.");
    if !known {
        return Err(line_error(n, quote("unknown section [", name, "]").as_str()));
    }
    let ghost before = d.deep_view();
    match strip_prefix(name, "account.") {
        Some(a) => {
            if a.as_str().is_empty() {
                return Err(line_error(n, "empty account name in [account.]"));
            }
            if account_at(&d.accounts, a.as_str()) < d.accounts.len() {
                return Err(line_error(n, quote("duplicate account name '", a.as_str(), "'").as_str()));
            }
            let entry = AccountDraft {
                name: a,
                well_known_url: None,
                username: None,
                password_command: None,
            };
            let ghost e = entry.deep_view();
            d.accounts.push(entry);
            assert(d.accounts.deep_view() =~= before.accounts.push(e));
        },
        None => match strip_prefix(name, "retention.") {
            Some(p) => {
                if p.as_str().is_empty() {
                    return Err(line_error(n, "empty policy name in [retention.]"));
                }
                if policy_at(&d.policies, p.as_str()) < d.policies.len() {
                    return Err(
                        line_error(
                            n,
                            quote("duplicate retention policy name '", p.as_str(), "'").as_str(),
                        ),
                    );
                }
                let entry = PolicyDraft { name: p, folder: None, days: None };
                let ghost e = entry.deep_view();
                d.policies.push(entry);
                assert(d.policies.deep_view() =~= before.policies.push(e));
            },
            None => {},
        },
    }
    d.section = name.to_owned();
    Ok(())
}

fn number_error(n: usize, value: &str, key: &str) -> (r: String)
    ensures
        r@ == bad_number(n as nat, value@, key@),
{
    let tail = quote("' for ", key, "");
    proof {
        reveal_strlit("");
        assert(""@ =~= Seq::<char>::empty());
    }
    line_error(n, quote("invalid numeric value '", value, tail.as_str()).as_str())
}

fn key_error(n: usize, key: &str, section: &str) -> (r: String)
    ensures
        r@ == bad_key(n as nat, key@, section@),
{
    let tail = quote("' in [", section, "]");
    line_error(n, quote("unknown key '", key, tail.as_str()).as_str())
}

fn set_ui(u: &mut UiConfig, key: &str, value: String, n: usize) -> (r: Result<(), String>)
    ensures
        match r {
            Ok(_) => ui_setting(old(u).deep_view(), key@, value@, n as nat) == Ok::<
                UiConfigV,
                Seq<char>,
            >(final(u).deep_view()),
            Err(e) => ui_setting(old(u).deep_view(), key@, value@, n as nat) == Err::<
                UiConfigV,
                Seq<char>,
            >(e@),
        },
{
    if same(key, "editor") {
        u.editor = Some(value);
        Ok(())
    } else if same(key, "browser") {
        u.browser = Some(value);
        Ok(())
    } else if same(key, "page_size") {
        match parse_upto(value.as_str(), u32::MAX as u64) {
            Some(v) => {
                u.page_size = v as u32;
                Ok(())
            },
            None => Err(number_error(n, value.as_str(), key)),
        }
    } else if same(key, "mouse") {
        if same(value.as_str(), "true") {
            u.mouse = true;
            Ok(())
        } else if same(value.as_str(), "false") {
            u.mouse = false;
            Ok(())
        } else {
            let msg = quote(
                "invalid boolean value '",
                value.as_str(),
                "' for mouse (expected true or false)",
            );
            Err(line_error(n, msg.as_str()))
        }
    } else if same(key, "sync_interval_secs") {
        match parse_upto(value.as_str(), u64::MAX) {
            Some(v) => {
                u.sync_interval_secs = if v == 0 {
                    None
                } else {
                    Some(v)
                };
                Ok(())
            },
            None => Err(number_error(n, value.as_str(), key)),
        }
    } else {
        Err(key_error(n, key, "ui"))
    }
}

fn set_mail(d: &mut Draft, key: &str, value: String, n: usize) -> (r: Result<(), String>)
    ensures
        match r {
            Ok(_) => mail_setting(old(d).deep_view(), key@, value@, n as nat) == Ok::<
                DraftV,
                Seq<char>,
            >(final(d).deep_view()),
            Err(e) => mail_setting(old(d).deep_view(), key@, value@, n as nat) == Err::<
                DraftV,
                Seq<char>,
            >(e@),
        },
{
    if same(key, "archive_folder") {
        d.archive_folder = value;
        Ok(())
    } else if same(key, "deleted_folder") {
        d.deleted_folder = value;
        Ok(())
    } else if same(key, "archive_mailbox_id") {
        d.archive_mailbox_id = Some(value);
        Ok(())
    } else if same(key, "deleted_mailbox_id") {
        d.deleted_mailbox_id = Some(value);
        Ok(())
    } else if same(key, "my_email_regex") {
        d.my_email_regex = value;
        Ok(())
    } else if same(key, "reply_from") {
        d.reply_from = Some(value);
        Ok(())
    } else if same(key, "rules_mailbox_regex") {
        match compile_regex(value.as_str()) {
            Ok(_) => {
                d.rules_mailbox_regex = value;
                Ok(())
            },
            Err(e) => {
                let tail = quote("' for rules_mailbox_regex: ", e.as_str(), "");
                proof {
                    reveal_strlit("");
                    assert(""@ =~= Seq::<char>::empty());
                }
                Err(
                    line_error(
                        n,
                        quote("invalid regex '", value.as_str(), tail.as_str()).as_str(),
                    ),
                )
            },
        }
    } else {
        Err(key_error(n, key, "mail"))
    }
}

fn hex_digit(c: char) -> (r: Option<u8>)
    ensures
        match r {
            Some(d) => hex_value(c) == Some(d as int) && d < 16,
            None => hex_value(c) is None,
        },
{
    if '0' <= c && c <= '9' {
        Some((c as u32 - '0' as u32) as u8)
    } else if 'a' <= c && c <= 'f' {
        Some((c as u32 - 'a' as u32 + 10) as u8)
    } else if 'A' <= c && c <= 'F' {
        Some((c as u32 - 'A' as u32 + 10) as u8)
    } else {
        None
    }
}

fn hex_byte(high: char, low: char) -> (r: Option<u8>)
    ensures
        match r {
            Some(b) => hex_pair(high, low) == Some(b as int),
            None => hex_pair(high, low) is None,
        },
{
    match (hex_digit(high), hex_digit(low)) {
        (Some(h), Some(l)) => Some(16 * h + l),
        _ => None,
    }
}

/// The colour that a text of the form `#RRGGBB` writes.
pub fn parse_colour(s: &str) -> (r: Option<Rgb>)
    ensures
        r == colour_of(s@),
{
    let v = to_chars(s);
    if v.len() != 7 || v[0] != '#' {
        return None;
    }
    match (hex_byte(v[1], v[2]), hex_byte(v[3], v[4]), hex_byte(v[5], v[6])) {
        (Some(r), Some(g), Some(b)) => Some(Rgb { r, g, b }),
        _ => None,
    }
}

fn set_colour(t: &mut Theme, key: &str, c: Rgb) -> (r: bool)
    ensures
        match with_colour(*old(t), key@, c) {
            Some(u) => r && *final(t) == u,
            None => !r && *final(t) == *old(t),
        },
{
    if same(key, "bg") {
        t.bg = Some(c);
    } else if same(key, "fg") {
        t.fg = Some(c);
    } else if same(key, "bold_fg") {
        t.bold_fg = Some(c);
    } else if same(key, "selection_bg") {
        t.selection_bg = Some(c);
    } else if same(key, "selection_fg") {
        t.selection_fg = Some(c);
    } else if same(key, "status_bg") {
        t.status_bg = Some(c);
    } else if same(key, "status_fg") {
        t.status_fg = Some(c);
    } else if same(key, "header_fg") {
        t.header_fg = Some(c);
    } else {
        return false;
    }
    true
}

fn set_theme(t: &mut Theme, key: &str, value: String, n: usize) -> (r: Result<(), String>)
    ensures
        match r {
            Ok(_) => theme_setting(*old(t), key@, value@, n as nat) == Ok::<Theme, Seq<char>>(
                *final(t),
            ),
            Err(e) => theme_setting(*old(t), key@, value@, n as nat) == Err::<Theme, Seq<char>>(e@),
        },
{
    let c = parse_colour(value.as_str());
    let shade = match c {
        Some(c) => c,
        None => Rgb { r: 0, g: 0, b: 0 },
    };
    if !set_colour(t, key, shade) {
        return Err(key_error(n, key, "theme"));
    }
    match c {
        Some(_) => Ok(()),
        None => {
            let tail = quote("' for ", key, " (expected #RRGGBB)");
            Err(line_error(n, quote("invalid color '", value.as_str(), tail.as_str()).as_str()))
        },
    }
}

fn set_account(a: &mut AccountDraft, key: &str, value: String) -> (r: bool)
    ensures
        match account_setting(old(a).deep_view(), key@, value@) {
            Some(x) => r && final(a).deep_view() == x,
            None => !r && *final(a) == *old(a),
        },
{
    if same(key, "well_known_url") {
        a.well_known_url = Some(value);
        true
    } else if same(key, "username") {
        a.username = Some(value);
        true
    } else if same(key, "password_command") {
        a.password_command = Some(value);
        true
    } else {
        false
    }
}

fn set_policy(p: &mut PolicyDraft, section: &str, key: &str, value: String, n: usize) -> (r: Result<
    (),
    String,
>)
    ensures
        match r {
            Ok(_) => policy_setting(old(p).deep_view(), section@, key@, value@, n as nat) == Ok::<
                PolicyDraftV,
                Seq<char>,
            >(final(p).deep_view()),
            Err(e) => policy_setting(old(p).deep_view(), section@, key@, value@, n as nat) == Err::<
                PolicyDraftV,
                Seq<char>,
            >(e@),
        },
{
    if same(key, "folder") {
        p.folder = Some(value);
        Ok(())
    } else if same(key, "days") {
        match parse_upto(value.as_str(), u32::MAX as u64) {
            Some(v) => {
                if v == 0 {
                    let msg = quote(
                        "days must be greater than 0 in [retention.",
                        p.name.as_str(),
                        "]",
                    );
                    Err(line_error(n, msg.as_str()))
                } else {
                    p.days = Some(v as u32);
                    Ok(())
                }
            },
            None => Err(number_error(n, value.as_str(), key)),
        }
    } else {
        Err(key_error(n, key, section))
    }
}

fn apply_setting(d: &mut Draft, key: &str, value: String, n: usize) -> (r: Result<(), String>)
    ensures
        match r {
            Ok(_) => setting_step(old(d).deep_view(), key@, value@, n as nat) == Ok::<
                DraftV,
                Seq<char>,
            >(final(d).deep_view()),
            Err(e) => setting_step(old(d).deep_view(), key@, value@, n as nat) == Err::<
                DraftV,
                Seq<char>,
            >(e@),
        },
{
    let ghost before = d.deep_view();
    if same(d.section.as_str(), "ui") {
        return set_ui(&mut d.ui, key, value, n);
    }
    if same(d.section.as_str(), "mail") {
        return set_mail(d, key, value, n);
    }
    if same(d.section.as_str(), "jmap") {
        if set_account(&mut d.jmap, key, value) {
            return Ok(());
        }
        return Err(key_error(n, key, "jmap"));
    }
    if same(d.section.as_str(), "theme") {
        return set_theme(&mut d.theme, key, value, n);
    }
    match strip_prefix(d.section.as_str(), "account.") {
        Some(name) => {
            let i = account_at(&d.accounts, name.as_str());
            if i < d.accounts.len() {
                assert(before.accounts[i as int] == d.accounts@[i as int].deep_view());
                if set_account(&mut d.accounts[i], key, value) {
                    assert(d.accounts.deep_view() =~= before.accounts.update(
                        i as int,
                        d.accounts@[i as int].deep_view(),
                    ));
                    return Ok(());
                }
                return Err(key_error(n, key, d.section.as_str()));
            }
            return Ok(());
        },
        None => {},
    }
    match strip_prefix(d.section.as_str(), "retention.") {
        Some(name) => {
            let i = policy_at(&d.policies, name.as_str());
            if i < d.policies.len() {
                assert(before.policies[i as int] == d.policies@[i as int].deep_view());
                match set_policy(&mut d.policies[i], d.section.as_str(), key, value, n) {
                    Ok(_) => {
                        assert(d.policies.deep_view() =~= before.policies.update(
                            i as int,
                            d.policies@[i as int].deep_view(),
                        ));
                        return Ok(());
                    },
                    Err(e) => {
                        return Err(e);
                    },
                }
            }
            Ok(())
        },
        None => Ok(()),
    }
}

fn apply_line(d: &mut Draft, line: &str, n: usize) -> (r: Result<(), String>)
    ensures
        match r {
            Ok(_) => line_step(old(d).deep_view(), line@, n as nat) == Ok::<DraftV, Seq<char>>(
                final(d).deep_view(),
            ),
            Err(e) => line_step(old(d).deep_view(), line@, n as nat) == Err::<DraftV, Seq<char>>(
                e@,
            ),
        },
{
    let t = trim(line);
    let v = to_chars(t.as_str());
    if v.len() == 0 || v[0] == '#' {
        return Ok(());
    }
    if v[0] == '[' && v[v.len() - 1] == ']' {
        let name = slice_text(&v, 1, v.len() - 1);
        return open_section(d, name.as_str(), n);
    }
    let mut eq: Vec<char> = Vec::new();
    eq.push('=');
    assert(eq@ =~= seq!['=']);
    match find_chars(&v, &eq, 0) {
        Some(p) => {
            let key = trim(slice_text(&v, 0, p).as_str());
            let raw = slice_text(&v, p + 1, v.len());
            match parse_value(raw.as_str(), n) {
                Ok(value) => apply_setting(d, key.as_str(), value, n),
                Err(e) => match e {
                    ConfigError::Parse(s) => Err(s),
                    ConfigError::Io(s) => Err(s),
                },
            }
        },
        None => Ok(()),
    }
}

// ---------------------------------------------------------------------------
// The whole file
// ---------------------------------------------------------------------------

/// The first `k` retention policies, all of which must be complete.
pub open spec fn policies_upto(s: Seq<PolicyDraftV>, k: int) -> Result<
    Seq<RetentionPolicyConfigV>,
    Seq<char>,
>
    decreases k,
{
    if k <= 0 {
        Ok(Seq::empty())
    } else {
        match policies_upto(s, k - 1) {
            Ok(ps) => match (s[k - 1].folder, s[k - 1].days) {
                (None, _) => Err(quoting("missing folder in [retention."@, s[k - 1].name, "]"@)),
                (_, None) => Err(quoting("missing days in [retention."@, s[k - 1].name, "]"@)),
                (Some(folder), Some(days)) => Ok(
                    ps.push(RetentionPolicyConfigV { name: s[k - 1].name, folder, days }),
                ),
            },
            Err(e) => Err(e),
        }
    }
}

/// An account, which must be complete; `place` names where it was to be set.
pub open spec fn account_of(a: AccountDraftV, place: Seq<char>) -> Result<
    AccountConfigV,
    Seq<char>,
> {
    match (a.well_known_url, a.username, a.password_command) {
        (None, _, _) => Err("missing well_known_url"@ + place),
        (_, None, _) => Err("missing username"@ + place),
        (_, _, None) => Err("missing password_command"@ + place),
        (Some(well_known_url), Some(username), Some(password_command)) => Ok(
            AccountConfigV { name: a.name, well_known_url, username, password_command },
        ),
    }
}

/// The first `k` named accounts, all of which must be complete.
pub open spec fn accounts_upto(s: Seq<AccountDraftV>, k: int) -> Result<
    Seq<AccountConfigV>,
    Seq<char>,
>
    decreases k,
{
    if k <= 0 {
        Ok(Seq::empty())
    } else {
        match accounts_upto(s, k - 1) {
            Ok(acc) => match account_of(s[k - 1], quoting(" in [account."@, s[k - 1].name, "]"@)) {
                Ok(a) => Ok(acc.push(a)),
                Err(e) => Err(e),
            },
            Err(e) => Err(e),
        }
    }
}

/// The accounts: the named ones, or else the one of the section `jmap`.
pub open spec fn accounts_of(d: DraftV) -> Result<Seq<AccountConfigV>, Seq<char>> {
    match accounts_upto(d.accounts, d.accounts.len() as int) {
        Ok(acc) => if acc.len() > 0 {
            Ok(acc)
        } else {
            match account_of(d.jmap, " (in [jmap] or [account.NAME])"@) {
                Ok(a) => Ok(seq![a]),
                Err(e) => Err(e),
            }
        },
        Err(e) => Err(e),
    }
}

/// The settings of a file that has been read to its end.
pub open spec fn completed(d: DraftV) -> Result<ConfigV, Seq<char>> {
    match policies_upto(d.policies, d.policies.len() as int) {
        Err(e) => Err(e),
        Ok(retention_policies) => match accounts_of(d) {
            Err(e) => Err(e),
            Ok(accounts) => Ok(
                ConfigV {
                    accounts,
                    ui: d.ui,
                    mail: MailConfigV {
                        archive_folder: d.archive_folder,
                        deleted_folder: d.deleted_folder,
                        archive_mailbox_id: d.archive_mailbox_id,
                        deleted_mailbox_id: d.deleted_mailbox_id,
                        reply_from: d.reply_from,
                        my_email_regex: d.my_email_regex,
                        rules_mailbox_regex: d.rules_mailbox_regex,
                        retention_policies,
                    },
                    theme: d.theme,
                },
            ),
        },
    }
}

/// The settings that a file gives, or what is wrong with it.
pub open spec fn parsed(contents: Seq<char>) -> Result<ConfigV, Seq<char>> {
    let ls = lines_of(contents);
    match drafted(ls, ls.len() as int) {
        Ok(d) => completed(d),
        Err(e) => Err(e),
    }
}

proof fn lemma_drafted_err(ls: Seq<Seq<char>>, i: int, k: int, e: Seq<char>)
    requires
        i <= k,
        drafted(ls, i) == Err::<DraftV, Seq<char>>(e),
    ensures
        drafted(ls, k) == Err::<DraftV, Seq<char>>(e),
    decreases k - i,
{
    if i < k {
        lemma_drafted_err(ls, i, k - 1, e);
        if k <= 0 {
            assert(drafted(ls, i) is Ok);
        }
    }
}

proof fn lemma_policies_err(s: Seq<PolicyDraftV>, i: int, k: int, e: Seq<char>)
    requires
        0 <= i <= k,
        policies_upto(s, i) == Err::<Seq<RetentionPolicyConfigV>, Seq<char>>(e),
    ensures
        policies_upto(s, k) == Err::<Seq<RetentionPolicyConfigV>, Seq<char>>(e),
    decreases k - i,
{
    if i < k {
        lemma_policies_err(s, i, k - 1, e);
    }
}

proof fn lemma_accounts_err(s: Seq<AccountDraftV>, i: int, k: int, e: Seq<char>)
    requires
        0 <= i <= k,
        accounts_upto(s, i) == Err::<Seq<AccountConfigV>, Seq<char>>(e),
    ensures
        accounts_upto(s, k) == Err::<Seq<AccountConfigV>, Seq<char>>(e),
    decreases k - i,
{
    if i < k {
        lemma_accounts_err(s, i, k - 1, e);
    }
}

fn complete_policies(s: &Vec<PolicyDraft>) -> (r: Result<Vec<RetentionPolicyConfig>, String>)
    ensures
        match r {
            Ok(v) => policies_upto(s.deep_view(), s@.len() as int) == Ok::<
                Seq<RetentionPolicyConfigV>,
                Seq<char>,
            >(v.deep_view()),
            Err(e) => policies_upto(s.deep_view(), s@.len() as int) == Err::<
                Seq<RetentionPolicyConfigV>,
                Seq<char>,
            >(e@),
        },
{
    let mut out: Vec<RetentionPolicyConfig> = Vec::new();
    let ghost sv = s.deep_view();
    let mut i: usize = 0;
    assert(out.deep_view() =~= Seq::empty());
    while i < s.len()
        invariant
            i <= s@.len(),
            sv == s.deep_view(),
            policies_upto(sv, i as int) == Ok::<Seq<RetentionPolicyConfigV>, Seq<char>>(
                out.deep_view(),
            ),
        decreases s@.len() - i,
    {
        assert(sv[i as int] == s@[i as int].deep_view());
        let folder = match &s[i].folder {
            Some(f) => f.clone(),
            None => {
                let e = quote("missing folder in [retention.", s[i].name.as_str(), "]");
                proof {
                    lemma_policies_err(sv, i + 1, s@.len() as int, e@);
                }
                return Err(e);
            },
        };
        let days: u32 = match &s[i].days {
            Some(d) => *d,
            None => {
                let e = quote("missing days in [retention.", s[i].name.as_str(), "]");
                proof {
                    lemma_policies_err(sv, i + 1, s@.len() as int, e@);
                }
                return Err(e);
            },
        };
        let ghost before = out.deep_view();
        let entry = RetentionPolicyConfig { name: s[i].name.clone(), folder, days };
        let ghost ev = entry.deep_view();
        out.push(entry);
        assert(out.deep_view() =~= before.push(ev));
        i = i + 1;
    }
    Ok(out)
}

fn complete_account(a: &AccountDraft, place: &str) -> (r: Result<AccountConfig, String>)
    ensures
        match r {
            Ok(v) => account_of(a.deep_view(), place@) == Ok::<AccountConfigV, Seq<char>>(
                v.deep_view(),
            ),
            Err(e) => account_of(a.deep_view(), place@) == Err::<AccountConfigV, Seq<char>>(e@),
        },
{
    let well_known_url = match &a.well_known_url {
        Some(u) => u.clone(),
        None => {
            let mut e = "missing well_known_url".to_owned();
            e.append(place);
            return Err(e);
        },
    };
    let username = match &a.username {
        Some(u) => u.clone(),
        None => {
            let mut e = "missing username".to_owned();
            e.append(place);
            return Err(e);
        },
    };
    let password_command = match &a.password_command {
        Some(u) => u.clone(),
        None => {
            let mut e = "missing password_command".to_owned();
            e.append(place);
            return Err(e);
        },
    };
    Ok(AccountConfig { name: a.name.clone(), well_known_url, username, password_command })
}

fn complete_accounts(d: &Draft) -> (r: Result<Vec<AccountConfig>, String>)
    ensures
        match r {
            Ok(v) => accounts_of(d.deep_view()) == Ok::<Seq<AccountConfigV>, Seq<char>>(
                v.deep_view(),
            ),
            Err(e) => accounts_of(d.deep_view()) == Err::<Seq<AccountConfigV>, Seq<char>>(e@),
        },
{
    let s = &d.accounts;
    let mut out: Vec<AccountConfig> = Vec::new();
    let ghost sv = s.deep_view();
    let mut i: usize = 0;
    assert(out.deep_view() =~= Seq::empty());
    while i < s.len()
        invariant
            i <= s@.len(),
            *s == d.accounts,
            sv == s.deep_view(),
            accounts_upto(sv, i as int) == Ok::<Seq<AccountConfigV>, Seq<char>>(out.deep_view()),
            out@.len() == i,
        decreases s@.len() - i,
    {
        assert(sv[i as int] == s@[i as int].deep_view());
        let place = quote(" in [account.", s[i].name.as_str(), "]");
        match complete_account(&s[i], place.as_str()) {
            Ok(a) => {
                let ghost before = out.deep_view();
                let ghost av = a.deep_view();
                out.push(a);
                assert(out.deep_view() =~= before.push(av));
            },
            Err(e) => {
                proof {
                    lemma_accounts_err(sv, i + 1, s@.len() as int, e@);
                }
                return Err(e);
            },
        }
        i = i + 1;
    }
    if out.len() == 0 {
        match complete_account(&d.jmap, " (in [jmap] or [account.NAME])") {
            Ok(a) => {
                let ghost av = a.deep_view();
                out.push(a);
                assert(out.deep_view() =~= seq![av]);
            },
            Err(e) => {
                return Err(e);
            },
        }
    }
    Ok(out)
}

impl Config {
    /// The settings that the text of a configuration file gives.
    pub fn parse(contents: &str) -> (r: Result<Config, ConfigError>)
        ensures
            match r {
                Ok(c) => parsed(contents@) == Ok::<ConfigV, Seq<char>>(c.deep_view()),
                Err(e) => e is Parse && parsed(contents@) == Err::<ConfigV, Seq<char>>(
                    e->Parse_0@,
                ),
            },
    {
        let mut d = Draft {
            section: String::new(),
            ui: UiConfig {
                editor: None,
                browser: None,
                page_size: 500,
                mouse: true,
                sync_interval_secs: Some(60),
            },
            archive_folder: "archive".to_owned(),
            deleted_folder: "trash".to_owned(),
            archive_mailbox_id: None,
            deleted_mailbox_id: None,
            reply_from: None,
            my_email_regex: "^$".to_owned(),
            rules_mailbox_regex: "^INBOX$".to_owned(),
            jmap: AccountDraft {
                name: "default".to_owned(),
                well_known_url: None,
                username: None,
                password_command: None,
            },
            accounts: Vec::new(),
            policies: Vec::new(),
            theme: Theme {
                bg: None,
                fg: None,
                selection_bg: None,
                selection_fg: None,
                status_bg: None,
                status_fg: None,
                header_fg: None,
                bold_fg: None,
            },
        };
        proof {
            assert(d.accounts.deep_view() =~= Seq::empty());
            assert(d.policies.deep_view() =~= Seq::empty());
        }
        let ls = lines(contents);
        let ghost lv = ls.deep_view();
        let mut i: usize = 0;
        while i < ls.len()
            invariant
                i <= ls@.len(),
                lv == ls.deep_view(),
                lv == lines_of(contents@),
                drafted(lv, i as int) == Ok::<DraftV, Seq<char>>(d.deep_view()),
            decreases ls@.len() - i,
        {
            assert(lv[i as int] == ls@[i as int]@);
            match apply_line(&mut d, ls[i].as_str(), i + 1) {
                Ok(_) => {},
                Err(e) => {
                    proof {
                        lemma_drafted_err(lv, i + 1, lv.len() as int, e@);
                    }
                    return Err(ConfigError::Parse(e));
                },
            }
            i = i + 1;
        }
        let retention_policies = match complete_policies(&d.policies) {
            Ok(p) => p,
            Err(e) => {
                return Err(ConfigError::Parse(e));
            },
        };
        let accounts = match complete_accounts(&d) {
            Ok(a) => a,
            Err(e) => {
                return Err(ConfigError::Parse(e));
            },
        };
        Ok(
            Config {
                accounts,
                ui: d.ui,
                mail: MailConfig {
                    archive_folder: d.archive_folder,
                    deleted_folder: d.deleted_folder,
                    archive_mailbox_id: d.archive_mailbox_id,
                    deleted_mailbox_id: d.deleted_mailbox_id,
                    reply_from: d.reply_from,
                    my_email_regex: d.my_email_regex,
                    rules_mailbox_regex: d.rules_mailbox_regex,
                    retention_policies,
                },
                theme: d.theme,
            },
        )
    }
}

// ---------------------------------------------------------------------------
// What holds of every configuration
// ---------------------------------------------------------------------------

/// What holds of everything read so far.
pub open spec fn draft_ok(d: DraftV) -> bool {
    &&& forall|i: int| 0 <= i < d.accounts.len() ==> (#[trigger] d.accounts[i]).name.len() > 0
    &&& forall|i: int, j: int|
        0 <= i < j < d.accounts.len() ==> d.accounts[i].name != d.accounts[j].name
    &&& forall|i: int| 0 <= i < d.policies.len() ==> (#[trigger] d.policies[i]).name.len() > 0
    &&& forall|i: int, j: int|
        0 <= i < j < d.policies.len() ==> d.policies[i].name != d.policies[j].name
    &&& forall|i: int|
        0 <= i < d.policies.len() ==> ((#[trigger] d.policies[i]).days is Some
            ==> d.policies[i].days->0 > 0)
    &&& d.jmap.name == "default"@
    &&& d.rules_mailbox_regex == "^INBOX$"@ || regex_of(d.rules_mailbox_regex) is Ok
    &&& d.ui.sync_interval_secs is Some ==> d.ui.sync_interval_secs->0 > 0
}

/// What holds of every configuration: there is an account; no two accounts and
/// no two policies share a name; no policy keeps messages for less than a day;
/// the pattern for rule mailboxes is the preset one or one that compiles; and a
/// synchronisation interval is never zero.
pub open spec fn config_ok(c: ConfigV) -> bool {
    &&& c.accounts.len() > 0
    &&& forall|i: int| 0 <= i < c.accounts.len() ==> (#[trigger] c.accounts[i]).name.len() > 0
    &&& forall|i: int, j: int|
        0 <= i < j < c.accounts.len() ==> c.accounts[i].name != c.accounts[j].name
    &&& forall|i: int|
        0 <= i < c.mail.retention_policies.len() ==> (#[trigger] c.mail.retention_policies[i]).days
            > 0 && c.mail.retention_policies[i].name.len() > 0
    &&& forall|i: int, j: int|
        0 <= i < j < c.mail.retention_policies.len() ==> c.mail.retention_policies[i].name
            != c.mail.retention_policies[j].name
    &&& c.mail.rules_mailbox_regex == "^INBOX$"@ || regex_of(c.mail.rules_mailbox_regex) is Ok
    &&& c.ui.sync_interval_secs is Some ==> c.ui.sync_interval_secs->0 > 0
}

proof fn lemma_account_index(s: Seq<AccountDraftV>, name: Seq<char>, i: int)
    requires
        0 <= i <= s.len(),
    ensures
        i <= account_index(s, name, i) <= s.len(),
        account_index(s, name, i) < s.len() ==> s[account_index(s, name, i)].name == name,
        forall|j: int| i <= j < account_index(s, name, i) ==> s[j].name != name,
    decreases s.len() - i,
{
    if i < s.len() && s[i].name != name {
        lemma_account_index(s, name, i + 1);
    }
}

proof fn lemma_policy_index(s: Seq<PolicyDraftV>, name: Seq<char>, i: int)
    requires
        0 <= i <= s.len(),
    ensures
        i <= policy_index(s, name, i) <= s.len(),
        policy_index(s, name, i) < s.len() ==> s[policy_index(s, name, i)].name == name,
        forall|j: int| i <= j < policy_index(s, name, i) ==> s[j].name != name,
    decreases s.len() - i,
{
    if i < s.len() && s[i].name != name {
        lemma_policy_index(s, name, i + 1);
    }
}

proof fn lemma_line_keeps_order(d: DraftV, line: Seq<char>, n: nat)
    requires
        draft_ok(d),
    ensures
        match line_step(d, line, n) {
            Ok(e) => draft_ok(e),
            Err(_) => true,
        },
{
    let t = trimmed(line);
    if t.len() == 0 || t[0] == '#' {
    } else if t[0] == '[' && t.last() == ']' {
        let name = t.subrange(1, t.len() - 1);
        match after_prefix(name, "account."@) {
            Some(a) => {
                lemma_account_index(d.accounts, a, 0);
            },
            None => match after_prefix(name, "retention."@) {
                Some(p) => {
                    lemma_policy_index(d.policies, p, 0);
                },
                None => {},
            },
        }
    } else {
        match find(t, seq!['=']) {
            Some(p) => match value_of(t.subrange(p + 1, t.len() as int), n) {
                Ok(v) => {
                    lemma_setting_keeps_order(d, trimmed(t.subrange(0, p)), v, n);
                },
                Err(_) => {},
            },
            None => {},
        }
    }
}

proof fn lemma_setting_keeps_order(d: DraftV, key: Seq<char>, value: Seq<char>, n: nat)
    requires
        draft_ok(d),
    ensures
        match setting_step(d, key, value, n) {
            Ok(e) => draft_ok(e),
            Err(_) => true,
        },
{
    match after_prefix(d.section, "account."@) {
        Some(name) => {
            lemma_account_index(d.accounts, name, 0);
        },
        None => match after_prefix(d.section, "retention."@) {
            Some(name) => {
                lemma_policy_index(d.policies, name, 0);
            },
            None => {},
        },
    }
}

proof fn lemma_drafted_ok(ls: Seq<Seq<char>>, k: int)
    ensures
        match drafted(ls, k) {
            Ok(d) => draft_ok(d),
            Err(_) => true,
        },
    decreases k,
{
    if k > 0 {
        lemma_drafted_ok(ls, k - 1);
        match drafted(ls, k - 1) {
            Ok(d) => {
                lemma_line_keeps_order(d, ls[k - 1], k as nat);
            },
            Err(_) => {},
        }
    }
}

proof fn lemma_accounts_upto(s: Seq<AccountDraftV>, k: int)
    requires
        0 <= k <= s.len(),
    ensures
        match accounts_upto(s, k) {
            Ok(acc) => acc.len() == k && forall|i: int|
                0 <= i < k ==> (#[trigger] acc[i]).name == s[i].name,
            Err(_) => true,
        },
    decreases k,
{
    if k > 0 {
        lemma_accounts_upto(s, k - 1);
    }
}

proof fn lemma_policies_upto(s: Seq<PolicyDraftV>, k: int)
    requires
        0 <= k <= s.len(),
    ensures
        match policies_upto(s, k) {
            Ok(ps) => ps.len() == k && forall|i: int|
                0 <= i < k ==> (#[trigger] ps[i]).name == s[i].name && s[i].days == Some(ps[i].days),
            Err(_) => true,
        },
    decreases k,
{
    if k > 0 {
        lemma_policies_upto(s, k - 1);
    }
}

/// Every configuration that a file gives is in order.
pub proof fn law_parsed_config_in_order(contents: Seq<char>)
    ensures
        match parsed(contents) {
            Ok(c) => config_ok(c),
            Err(_) => true,
        },
{
    let ls = lines_of(contents);
    lemma_drafted_ok(ls, ls.len() as int);
    match drafted(ls, ls.len() as int) {
        Ok(d) => {
            lemma_accounts_upto(d.accounts, d.accounts.len() as int);
            lemma_policies_upto(d.policies, d.policies.len() as int);
            reveal_strlit("default");
        },
        Err(_) => {},
    }
}

/// A character as it is written between quotes.
pub open spec fn escaped_char(c: char) -> Seq<char> {
    if c == '"' {
        seq!['\\', '"']
    } else if c == '\\' {
        seq!['\\', '\\']
    } else if c == '\n' {
        seq!['\\', 'n']
    } else if c == '\t' {
        seq!['\\', 't']
    } else {
        seq![c]
    }
}

/// A text as it is written between quotes.
pub open spec fn escaped(s: Seq<char>) -> Seq<char>
    decreases s.len(),
{
    if s.len() == 0 {
        Seq::empty()
    } else {
        escaped(s.drop_last()) + escaped_char(s.last())
    }
}

proof fn lemma_unescape_step(s: Seq<char>, t: Seq<char>, i: int, acc: Seq<char>, out: Seq<char>)
    requires
        0 <= i <= s.len(),
        unescape(s, i, acc) == Unescaped::Text(out),
    ensures
        unescape(s + t, i, acc) == unescape(s + t, s.len() as int, out),
        closing_quote(s, i) is None ==> closing_quote(s + t, i) == closing_quote(
            s + t,
            s.len() as int,
        ),
    decreases s.len() - i,
{
    if i < s.len() {
        assert((s + t)[i] == s[i]);
        if s[i] != '\\' {
            lemma_unescape_step(s, t, i + 1, acc.push(s[i]), out);
        } else if i + 1 < s.len() {
            assert((s + t)[i + 1] == s[i + 1]);
            let c = s[i + 1];
            let d = if c == 'n' {
                '\n'
            } else if c == 't' {
                '\t'
            } else {
                c
            };
            lemma_unescape_step(s, t, i + 2, acc.push(d), out);
        }
    }
}

proof fn lemma_unescape_escaped(s: Seq<char>)
    ensures
        unescape(escaped(s), 0, Seq::empty()) == Unescaped::Text(s),
        closing_quote(escaped(s), 0) is None,
    decreases s.len(),
{
    if s.len() == 0 {
        assert(s =~= Seq::empty());
    } else {
        let init = s.drop_last();
        let e = escaped(init);
        lemma_unescape_escaped(init);
        let c = s.last();
        let t = escaped_char(c);
        lemma_unescape_step(e, t, 0, Seq::empty(), init);
        let all = e + t;
        assert(all == escaped(s));
        let n = e.len() as int;
        assert(all[n] == t[0]);
        assert(init.push(c) =~= s);
        if t.len() == 2 {
            assert(all[n + 1] == t[1]);
            assert(unescape(all, n + 2, init.push(c)) == Unescaped::Text(init.push(c)));
            assert(closing_quote(all, n + 2) is None);
        } else {
            assert(unescape(all, n + 1, init.push(c)) == Unescaped::Text(init.push(c)));
            assert(closing_quote(all, n + 1) is None);
        }
    }
}

proof fn lemma_trimmed_end_behind(a: Seq<char>, r: Seq<char>)
    requires
        a.len() > 0,
        !white(a.last()),
    ensures
        trimmed_end(a + r) == a + trimmed_end(r),
    decreases r.len(),
{
    if r.len() == 0 {
        assert(a + r =~= a);
        assert(r =~= Seq::empty());
        assert(a + trimmed_end(r) =~= a);
    } else {
        assert((a + r).last() == r.last());
        if white(r.last()) {
            assert((a + r).drop_last() =~= a + r.drop_last());
            lemma_trimmed_end_behind(a, r.drop_last());
        }
    }
}

proof fn lemma_trimmed_end_escaped(s: Seq<char>) -> (t: Seq<char>)
    ensures
        trimmed_end(escaped(s)) == escaped(t),
    decreases s.len(),
{
    if s.len() == 0 {
        s
    } else {
        let last = escaped_char(s.last());
        let e = escaped(s.drop_last());
        assert(escaped(s).last() == last.last());
        if white(escaped(s).last()) {
            assert(last =~= seq![s.last()]);
            assert(escaped(s).drop_last() =~= e);
            lemma_trimmed_end_escaped(s.drop_last())
        } else {
            s
        }
    }
}

/// Every text can be set: written in quotes, with its quotes, backslashes, line feeds
/// and tabs escaped, it is read back as it was, whatever stands behind the closing
/// quote.
pub proof fn law_escaped_text_reads_back(s: Seq<char>, rest: Seq<char>, n: nat)
    ensures
        value_of(seq!['"'] + escaped(s) + seq!['"'] + rest, n) == Ok::<Seq<char>, Seq<char>>(s),
{
    let e = escaped(s);
    let quoted = seq!['"'] + e + seq!['"'];
    let raw = quoted + rest;
    lemma_unescape_escaped(s);
    assert(raw[0] == '"');
    lemma_trimmed_end_behind(quoted, rest);
    let t = trimmed_end(rest);
    let inner = e + (seq!['"'] + t);
    assert(trimmed(raw) == quoted + t);
    assert((quoted + t).subrange(0, 1) =~= seq!['"']);
    assert((quoted + t).subrange(1, (quoted + t).len() as int) =~= inner);
    lemma_unescape_step(e, seq!['"'] + t, 0, Seq::empty(), s);
    assert(inner[e.len() as int] == '"');
    assert(inner.subrange(0, e.len() as int) =~= e);
}

/// A text whose closing quote is missing is refused.
pub proof fn law_missing_quote_is_refused(s: Seq<char>, n: nat)
    ensures
        value_of(seq!['"'] + escaped(s), n) == Err::<Seq<char>, Seq<char>>(
            at_line(n, "unmatched quote in value"@),
        ),
{
    let e = escaped(s);
    let raw = seq!['"'] + e;
    assert(raw[0] == '"');
    lemma_trimmed_end_behind(seq!['"'], e);
    let u = lemma_trimmed_end_escaped(s);
    lemma_unescape_escaped(u);
    let t = seq!['"'] + escaped(u);
    assert(trimmed(raw) == t);
    assert(t.subrange(0, 1) =~= seq!['"']);
    assert(t.subrange(1, t.len() as int) =~= escaped(u));
}

// ---------------------------------------------------------------------------
// Where the file is
// ---------------------------------------------------------------------------

/// The configuration file, from the directory for configurations and the home
/// directory.
pub open spec fn config_file(xdg: Option<Seq<char>>, home: Option<Seq<char>>) -> Seq<char> {
    match (xdg, home) {
        (Some(d), _) => path_join(path_join(d, "tmc"@), "config.toml"@),
        (None, Some(h)) => path_join(
            path_join(path_join(h, ".config"@), "tmc"@),
            "config.toml"@,
        ),
        (None, None) => "config.toml"@,
    }
}

/// The configuration file, from the directory for configurations and the home
/// directory.
pub fn default_config_path(xdg: Option<String>, home: Option<String>) -> (r: String)
    ensures
        r@ == config_file(xdg.deep_view(), home.deep_view()),
{
    match xdg {
        Some(d) => join_path(join_path(d.as_str(), "tmc").as_str(), "config.toml"),
        None => match home {
            Some(h) => join_path(
                join_path(join_path(h.as_str(), ".config").as_str(), "tmc").as_str(),
                "config.toml",
            ),
            None => "config.toml".to_owned(),
        },
    }
}

} // verus!
