//! The configuration file: each setting sets what it names and nothing else, and what is
//! not set has its preset value.

use vstd::prelude::*;

use crate::config::{
    account_index, accounts_upto, blank_draft, colour_of, completed, drafted, escaped, header_step,
    law_escaped_text_reads_back, line_step, parsed, policies_upto, policy_index, setting_step,
    AccountConfigV, AccountDraftV, DraftV, PolicyDraftV, RetentionPolicyConfigV, Rgb, UiConfigV,
};
use crate::pattern::regex_of;
use crate::text::{
    after_prefix, begins, find, lemma_find_from, lines_of, number_upto, occurs_at, trimmed,
    trimmed_end, trimmed_start, white,
};

verus! {

proof fn lemma_key_names()
    ensures
        "ui"@.len() == 2 && "mail"@.len() == 4 && "jmap"@.len() == 4 && "theme"@.len() == 5,
        "mail"@[0] == 'm' && "jmap"@[0] == 'j',
        "editor"@.len() == 6 && "browser"@.len() == 7 && "page_size"@.len() == 9,
        "mouse"@.len() == 5 && "sync_interval_secs"@.len() == 18,
        "true"@.len() == 4 && "false"@.len() == 5,
        "archive_folder"@.len() == 14 && "deleted_folder"@.len() == 14,
        "archive_folder"@[0] == 'a' && "deleted_folder"@[0] == 'd',
        "archive_mailbox_id"@.len() == 18 && "deleted_mailbox_id"@.len() == 18,
        "archive_mailbox_id"@[0] == 'a' && "deleted_mailbox_id"@[0] == 'd',
        "my_email_regex"@.len() == 14 && "my_email_regex"@[0] == 'm',
        "reply_from"@.len() == 10 && "rules_mailbox_regex"@.len() == 19,
        "well_known_url"@.len() == 14 && "username"@.len() == 8 && "password_command"@.len() == 16,
{
    reveal_strlit("ui");
    reveal_strlit("mail");
    reveal_strlit("jmap");
    reveal_strlit("theme");
    reveal_strlit("editor");
    reveal_strlit("browser");
    reveal_strlit("page_size");
    reveal_strlit("mouse");
    reveal_strlit("sync_interval_secs");
    reveal_strlit("true");
    reveal_strlit("false");
    reveal_strlit("archive_folder");
    reveal_strlit("deleted_folder");
    reveal_strlit("archive_mailbox_id");
    reveal_strlit("deleted_mailbox_id");
    reveal_strlit("my_email_regex");
    reveal_strlit("reply_from");
    reveal_strlit("rules_mailbox_regex");
    reveal_strlit("well_known_url");
    reveal_strlit("username");
    reveal_strlit("password_command");
}

// ---------------------------------------------------------------------------
// Settings
// ---------------------------------------------------------------------------

/// In the section `mail`, each setting sets its own value and leaves all others.
pub proof fn law_mail_settings_set_their_own_value(d: DraftV, value: Seq<char>, n: nat)
    requires
        d.section == "mail"@,
    ensures
        setting_step(d, "archive_folder"@, value, n) == Ok::<DraftV, Seq<char>>(
            DraftV { archive_folder: value, ..d },
        ),
        setting_step(d, "deleted_folder"@, value, n) == Ok::<DraftV, Seq<char>>(
            DraftV { deleted_folder: value, ..d },
        ),
        setting_step(d, "archive_mailbox_id"@, value, n) == Ok::<DraftV, Seq<char>>(
            DraftV { archive_mailbox_id: Some(value), ..d },
        ),
        setting_step(d, "deleted_mailbox_id"@, value, n) == Ok::<DraftV, Seq<char>>(
            DraftV { deleted_mailbox_id: Some(value), ..d },
        ),
        setting_step(d, "my_email_regex"@, value, n) == Ok::<DraftV, Seq<char>>(
            DraftV { my_email_regex: value, ..d },
        ),
        setting_step(d, "reply_from"@, value, n) == Ok::<DraftV, Seq<char>>(
            DraftV { reply_from: Some(value), ..d },
        ),
        regex_of(value) is Ok ==> setting_step(d, "rules_mailbox_regex"@, value, n) == Ok::<
            DraftV,
            Seq<char>,
        >(DraftV { rules_mailbox_regex: value, ..d }),
        regex_of(value) is Err ==> setting_step(d, "rules_mailbox_regex"@, value, n) is Err,
{
    lemma_key_names();
}

/// In the section `ui`, each setting sets its own value and leaves all others; numbers and
/// truth values that are none are refused, and an interval of zero is none.
pub proof fn law_ui_settings_set_their_own_value(d: DraftV, value: Seq<char>, n: nat, v: nat)
    requires
        d.section == "ui"@,
    ensures
        ({
            let set = |key: Seq<char>, value: Seq<char>, u: UiConfigV|
                setting_step(d, key, value, n) == Ok::<DraftV, Seq<char>>(DraftV { ui: u, ..d });
            let small = number_upto(value, u32::MAX as nat);
            let large = number_upto(value, u64::MAX as nat);
            &&& set("editor"@, value, UiConfigV { editor: Some(value), ..d.ui })
            &&& set("browser"@, value, UiConfigV { browser: Some(value), ..d.ui })
            &&& set("mouse"@, "true"@, UiConfigV { mouse: true, ..d.ui })
            &&& set("mouse"@, "false"@, UiConfigV { mouse: false, ..d.ui })
            &&& value != "true"@ && value != "false"@ ==> setting_step(d, "mouse"@, value, n) is Err
            &&& small == Some(v) ==> set(
                "page_size"@,
                value,
                UiConfigV { page_size: v as u32, ..d.ui },
            )
            &&& small is None ==> setting_step(d, "page_size"@, value, n) is Err
            &&& large == Some(0nat) ==> set(
                "sync_interval_secs"@,
                value,
                UiConfigV { sync_interval_secs: None, ..d.ui },
            )
            &&& large == Some(v) && v > 0 ==> set(
                "sync_interval_secs"@,
                value,
                UiConfigV { sync_interval_secs: Some(v as u64), ..d.ui },
            )
            &&& large is None ==> setting_step(d, "sync_interval_secs"@, value, n) is Err
        }),
{
    lemma_key_names();
}

/// In the section `jmap`, each setting sets its own value of the one account.
pub proof fn law_jmap_settings_set_their_own_value(d: DraftV, value: Seq<char>, n: nat)
    requires
        d.section == "jmap"@,
    ensures
        setting_step(d, "well_known_url"@, value, n) == Ok::<DraftV, Seq<char>>(
            DraftV { jmap: AccountDraftV { well_known_url: Some(value), ..d.jmap }, ..d },
        ),
        setting_step(d, "username"@, value, n) == Ok::<DraftV, Seq<char>>(
            DraftV { jmap: AccountDraftV { username: Some(value), ..d.jmap }, ..d },
        ),
        setting_step(d, "password_command"@, value, n) == Ok::<DraftV, Seq<char>>(
            DraftV { jmap: AccountDraftV { password_command: Some(value), ..d.jmap }, ..d },
        ),
{
    lemma_key_names();
}

proof fn lemma_ends(s: Seq<char>)
    requires
        s.len() > 0,
        !white(s[0]),
        !white(s.last()),
    ensures
        trimmed(s) == s,
{
    assert(trimmed_start(s) == s);
    assert(trimmed_end(s) == s);
}

/// A line with a key, an equals sign and a quoted text is the setting of that key to that
/// text, whatever the text holds.
pub proof fn law_line_sets_its_key(d: DraftV, key: Seq<char>, text: Seq<char>, n: nat)
    requires
        key.len() > 0,
        !key.contains('='),
        key[0] != '#' && key[0] != '[',
        !white(key[0]) && !white(key.last()),
    ensures
        line_step(d, key + seq!['='] + (seq!['"'] + escaped(text) + seq!['"']), n) == setting_step(
            d,
            key,
            text,
            n,
        ),
{
    let quoted = seq!['"'] + escaped(text) + seq!['"'];
    let t = key + seq!['='] + quoted;
    let p = key.len() as int;
    assert(t[0] == key[0]);
    assert(t.last() == '"');
    lemma_ends(t);
    lemma_ends(key);
    assert(t[p] == '=');
    let eq = seq!['='];
    lemma_find_from(t, eq, 0);
    assert(t.subrange(p, p + 1) =~= eq);
    assert(occurs_at(t, eq, p));
    let k = find(t, eq)->0;
    assert(t.subrange(k, k + 1)[0] == t[k]);
    assert(k == p) by {
        if k < p {
            assert(key[k] == '=');
        }
    }
    assert(t.subrange(p + 1, t.len() as int) =~= quoted);
    assert(t.subrange(0, p) =~= key);
    law_escaped_text_reads_back(text, Seq::empty(), n);
    assert(quoted + Seq::<char>::empty() =~= quoted);
}

// ---------------------------------------------------------------------------
// The whole file
// ---------------------------------------------------------------------------

/// A file is read line by line, and the configuration holds what was set last: the
/// folders, ids, patterns, the user interface and the colours as they were set.
pub proof fn law_configuration_holds_what_was_set(contents: Seq<char>)
    requires
        parsed(contents) is Ok,
    ensures
        ({
            let ls = lines_of(contents);
            let d = drafted(ls, ls.len() as int);
            let c = parsed(contents)->Ok_0;
            &&& d is Ok
            &&& c.ui == d->Ok_0.ui
            &&& c.theme == d->Ok_0.theme
            &&& c.mail.archive_folder == d->Ok_0.archive_folder
            &&& c.mail.deleted_folder == d->Ok_0.deleted_folder
            &&& c.mail.archive_mailbox_id == d->Ok_0.archive_mailbox_id
            &&& c.mail.deleted_mailbox_id == d->Ok_0.deleted_mailbox_id
            &&& c.mail.reply_from == d->Ok_0.reply_from
            &&& c.mail.my_email_regex == d->Ok_0.my_email_regex
            &&& c.mail.rules_mailbox_regex == d->Ok_0.rules_mailbox_regex
        }),
{
}

/// Before anything is set, messages go to the folders `archive` and `trash`, the rules
/// watch the inbox, no address is the user's, pages have five hundred messages, the mouse
/// is on, the mail is synchronised every minute, and the colours are the terminal's.
pub proof fn law_unset_settings_have_presets()
    ensures
        ({
            let d = blank_draft();
            &&& d.archive_folder == "archive"@ && d.deleted_folder == "trash"@
            &&& d.archive_mailbox_id is None && d.deleted_mailbox_id is None
            &&& d.reply_from is None
            &&& d.rules_mailbox_regex == "^INBOX$"@ && d.my_email_regex == "^$"@
            &&& d.ui.page_size == 500 && d.ui.mouse && d.ui.sync_interval_secs == Some(60u64)
            &&& d.ui.editor is None && d.ui.browser is None
            &&& d.accounts.len() == 0 && d.policies.len() == 0
            &&& d.theme.bg is None && d.theme.fg is None && d.theme.bold_fg is None
        }),
{
}

proof fn lemma_policies(s: Seq<PolicyDraftV>, k: int)
    requires
        0 <= k <= s.len(),
    ensures
        policies_upto(s, k) is Ok <==> forall|i: int|
            0 <= i < k ==> (#[trigger] s[i]).folder is Some && s[i].days is Some,
        match policies_upto(s, k) {
            Ok(ps) => ps.len() == k && forall|i: int|
                0 <= i < k ==> #[trigger] ps[i] == (RetentionPolicyConfigV {
                    name: s[i].name,
                    folder: s[i].folder->0,
                    days: s[i].days->0,
                }),
            Err(_) => true,
        },
    decreases k,
{
    if k > 0 {
        lemma_policies(s, k - 1);
        if policies_upto(s, k) is Err {
            if policies_upto(s, k - 1) is Ok {
                assert(!(s[k - 1].folder is Some && s[k - 1].days is Some));
            } else {
                let i = choose|i: int|
                    0 <= i < k - 1 && !((#[trigger] s[i]).folder is Some && s[i].days is Some);
                assert(!(s[i].folder is Some && s[i].days is Some));
            }
        }
    }
}

/// Every retention policy is kept as it was set, in order: its name, its folder and its
/// days; one without a folder or days is refused.
pub proof fn law_policies_are_kept_as_set(d: DraftV, i: int)
    requires
        0 <= i < d.policies.len(),
    ensures
        completed(d) matches Ok(c) ==> c.mail.retention_policies.len() == d.policies.len()
            && c.mail.retention_policies[i] == (RetentionPolicyConfigV {
            name: d.policies[i].name,
            folder: d.policies[i].folder->0,
            days: d.policies[i].days->0,
        }),
        d.policies[i].folder is None || d.policies[i].days is None ==> completed(d) is Err,
{
    lemma_policies(d.policies, d.policies.len() as int);
}

/// A colour of the form `#RRGGBB` is the one whose parts these are, and no other text is
/// a colour.
pub proof fn law_colours_are_hexadecimal(s: Seq<char>)
    requires
        s.len() == 7,
        s[0] == '#',
        forall|i: int| 1 <= i < 7 ==> '0' <= #[trigger] s[i] <= '9',
    ensures
        colour_of(s) == Some(
            Rgb {
                r: (16 * (s[1] as int - 48) + (s[2] as int - 48)) as u8,
                g: (16 * (s[3] as int - 48) + (s[4] as int - 48)) as u8,
                b: (16 * (s[5] as int - 48) + (s[6] as int - 48)) as u8,
            },
        ),
{
    assert('0' <= s[1] <= '9' && '0' <= s[2] <= '9' && '0' <= s[3] <= '9');
    assert('0' <= s[4] <= '9' && '0' <= s[5] <= '9' && '0' <= s[6] <= '9');
}

// ---------------------------------------------------------------------------
// Sections
// ---------------------------------------------------------------------------

proof fn lemma_after(p: Seq<char>, name: Seq<char>)
    ensures
        after_prefix(p + name, p) == Some(name),
{
    let s = p + name;
    assert(s.subrange(0, p.len() as int) =~= p);
    assert(s.subrange(p.len() as int, s.len() as int) =~= name);
}

proof fn lemma_sections()
    ensures
        "account."@.len() == 8 && "account."@[0] == 'a',
        "retention."@.len() == 10 && "retention."@[0] == 'r',
        "ui"@.len() == 2 && "mail"@.len() == 4 && "jmap"@.len() == 4 && "theme"@.len() == 5,
        "folder"@.len() == 6 && "days"@.len() == 4,
{
    reveal_strlit("account.");
    reveal_strlit("retention.");
    reveal_strlit("ui");
    reveal_strlit("mail");
    reveal_strlit("jmap");
    reveal_strlit("theme");
    reveal_strlit("folder");
    reveal_strlit("days");
}

proof fn lemma_account_at(s: Seq<AccountDraftV>, i: int, k: int)
    requires
        0 <= k <= i < s.len(),
        forall|j: int| 0 <= j < i ==> (#[trigger] s[j]).name != s[i].name,
    ensures
        account_index(s, s[i].name, k) == i,
    decreases i - k,
{
    if k < i {
        assert(s[k].name != s[i].name);
        lemma_account_at(s, i, k + 1);
    }
}

proof fn lemma_policy_at(s: Seq<PolicyDraftV>, i: int, k: int)
    requires
        0 <= k <= i < s.len(),
        forall|j: int| 0 <= j < i ==> (#[trigger] s[j]).name != s[i].name,
    ensures
        policy_index(s, s[i].name, k) == i,
    decreases i - k,
{
    if k < i {
        assert(s[k].name != s[i].name);
        lemma_policy_at(s, i, k + 1);
    }
}

/// In the section of an account, settings are those of that account and of no other; in
/// the section of a retention policy they are its folder and its days, which are a number
/// above zero.
pub proof fn law_sections_set_their_own_account_or_policy(
    d: DraftV,
    value: Seq<char>,
    n: nat,
    i: int,
    v: nat,
)
    ensures
        0 <= i < d.accounts.len() && d.section == "account."@ + d.accounts[i].name && (forall|
            j: int,
        |
            0 <= j < i ==> (#[trigger] d.accounts[j]).name != d.accounts[i].name) ==> ({
            let a = d.accounts[i];
            let set = |key: Seq<char>, b: AccountDraftV|
                setting_step(d, key, value, n) == Ok::<DraftV, Seq<char>>(
                    DraftV { accounts: d.accounts.update(i, b), ..d },
                );
            &&& set("well_known_url"@, AccountDraftV { well_known_url: Some(value), ..a })
            &&& set("username"@, AccountDraftV { username: Some(value), ..a })
            &&& set("password_command"@, AccountDraftV { password_command: Some(value), ..a })
        }),
        0 <= i < d.policies.len() && d.section == "retention."@ + d.policies[i].name && (forall|
            j: int,
        |
            0 <= j < i ==> (#[trigger] d.policies[j]).name != d.policies[i].name) ==> ({
            let p = d.policies[i];
            let set = |key: Seq<char>, b: PolicyDraftV|
                setting_step(d, key, value, n) == Ok::<DraftV, Seq<char>>(
                    DraftV { policies: d.policies.update(i, b), ..d },
                );
            let number = number_upto(value, u32::MAX as nat);
            &&& set("folder"@, PolicyDraftV { folder: Some(value), ..p })
            &&& number == Some(v) && v > 0 ==> set(
                "days"@,
                PolicyDraftV { days: Some(v as u32), ..p },
            )
            &&& number == Some(0nat) || number is None ==> setting_step(d, "days"@, value, n) is Err
        }),
{
    lemma_key_names();
    lemma_sections();
    if 0 <= i < d.accounts.len() && d.section == "account."@ + d.accounts[i].name && (forall|j: int|
        0 <= j < i ==> (#[trigger] d.accounts[j]).name != d.accounts[i].name) {
        lemma_after("account."@, d.accounts[i].name);
        lemma_account_at(d.accounts, i, 0);
        assert(d.section[0] == 'a');
    }
    if 0 <= i < d.policies.len() && d.section == "retention."@ + d.policies[i].name && (forall|
        j: int,
    |
        0 <= j < i ==> (#[trigger] d.policies[j]).name != d.policies[i].name) {
        lemma_after("retention."@, d.policies[i].name);
        lemma_policy_at(d.policies, i, 0);
        assert(d.section[0] == 'r');
        assert(after_prefix(d.section, "account."@) is None) by {
            if begins(d.section, "account."@) {
                assert(d.section.subrange(0, 8)[0] == d.section[0]);
            }
        }
    }
}

/// The accounts are the named ones, each with its address, its user and the command for
/// its password as they were set; where none is named, the one of the section `jmap`.
pub proof fn law_accounts_are_kept_as_set(d: DraftV, i: int)
    requires
        completed(d) is Ok,
    ensures
        ({
            let c = completed(d)->Ok_0;
            let same = |a: AccountConfigV, b: AccountDraftV|
                {
                    &&& a.name == b.name
                    &&& b.well_known_url == Some(a.well_known_url)
                    &&& b.username == Some(a.username)
                    &&& b.password_command == Some(a.password_command)
                };
            &&& d.accounts.len() > 0 ==> c.accounts.len() == d.accounts.len()
            &&& 0 <= i < d.accounts.len() ==> same(c.accounts[i], d.accounts[i])
            &&& d.accounts.len() == 0 ==> c.accounts.len() == 1 && same(c.accounts[0], d.jmap)
        }),
{
    lemma_accounts(d.accounts, d.accounts.len() as int);
}

proof fn lemma_accounts(s: Seq<AccountDraftV>, k: int)
    requires
        0 <= k <= s.len(),
        accounts_upto(s, k) is Ok,
    ensures
        accounts_upto(s, k)->Ok_0.len() == k,
        forall|i: int|
            0 <= i < k ==> {
                let a = #[trigger] accounts_upto(s, k)->Ok_0[i];
                &&& a.name == s[i].name
                &&& s[i].well_known_url == Some(a.well_known_url)
                &&& s[i].username == Some(a.username)
                &&& s[i].password_command == Some(a.password_command)
            },
    decreases k,
{
    if k > 0 {
        lemma_accounts(s, k - 1);
        let before = accounts_upto(s, k - 1)->Ok_0;
        let now = accounts_upto(s, k)->Ok_0;
        assert forall|i: int| 0 <= i < k implies ({
            let a = #[trigger] now[i];
            &&& a.name == s[i].name
            &&& s[i].well_known_url == Some(a.well_known_url)
            &&& s[i].username == Some(a.username)
            &&& s[i].password_command == Some(a.password_command)
        }) by {
            if i < k - 1 {
                assert(now[i] == before[i]);
            }
        }
    }
}

/// The header of an account or a policy begins a new one of that name, with nothing set,
/// behind those before it, and what follows belongs to it; a name is not given twice. A
/// section of another name is refused.
pub proof fn law_headers_begin_accounts_and_policies(d: DraftV, name: Seq<char>, n: nat)
    requires
        name.len() > 0,
    ensures
        ({
            let header = "account."@ + name;
            let r = header_step(d, header, n);
            let blank = AccountDraftV {
                name,
                well_known_url: None,
                username: None,
                password_command: None,
            };
            let taken = exists|i: int|
                0 <= i < d.accounts.len() && (#[trigger] d.accounts[i]).name == name;
            &&& taken ==> r is Err
            &&& !taken ==> r == Ok::<DraftV, Seq<char>>(
                DraftV { section: header, accounts: d.accounts.push(blank), ..d },
            )
        }),
        ({
            let header = "retention."@ + name;
            let r = header_step(d, header, n);
            let blank = PolicyDraftV { name, folder: None, days: None };
            let taken = exists|i: int|
                0 <= i < d.policies.len() && (#[trigger] d.policies[i]).name == name;
            &&& taken ==> r is Err
            &&& !taken ==> r == Ok::<DraftV, Seq<char>>(
                DraftV { section: header, policies: d.policies.push(blank), ..d },
            )
        }),
        ({
            let known = name == "ui"@ || name == "mail"@ || name == "jmap"@ || name == "theme"@;
            &&& known ==> header_step(d, name, n) == Ok::<DraftV, Seq<char>>(
                DraftV { section: name, ..d },
            )
            &&& !known && !begins(name, "account."@) && !begins(name, "retention."@)
                ==> header_step(d, name, n) is Err
        }),
{
    lemma_sections();
    lemma_after("account."@, name);
    lemma_after("retention."@, name);
    let a = "account."@ + name;
    let r = "retention."@ + name;
    assert(a[0] == 'a' && r[0] == 'r');
    assert(a.subrange(0, 8) =~= "account."@);
    assert(r.subrange(0, 10) =~= "retention."@);
    assert(after_prefix(r, "account."@) is None) by {
        if begins(r, "account."@) {
            assert(r.subrange(0, 8)[0] == r[0]);
        }
    }
    lemma_account_known(d.accounts, name, 0);
    lemma_policy_known(d.policies, name, 0);
}

proof fn lemma_account_known(s: Seq<AccountDraftV>, name: Seq<char>, k: int)
    requires
        0 <= k <= s.len(),
    ensures
        k <= account_index(s, name, k) <= s.len(),
        account_index(s, name, k) < s.len() ==> s[account_index(s, name, k)].name == name,
        account_index(s, name, k) == s.len() ==> forall|i: int|
            k <= i < s.len() ==> (#[trigger] s[i]).name != name,
    decreases s.len() - k,
{
    if k < s.len() && s[k].name != name {
        lemma_account_known(s, name, k + 1);
    }
}

proof fn lemma_policy_known(s: Seq<PolicyDraftV>, name: Seq<char>, k: int)
    requires
        0 <= k <= s.len(),
    ensures
        k <= policy_index(s, name, k) <= s.len(),
        policy_index(s, name, k) < s.len() ==> s[policy_index(s, name, k)].name == name,
        policy_index(s, name, k) == s.len() ==> forall|i: int|
            k <= i < s.len() ==> (#[trigger] s[i]).name != name,
    decreases s.len() - k,
{
    if k < s.len() && s[k].name != name {
        lemma_policy_known(s, name, k + 1);
    }
}

} // verus!
