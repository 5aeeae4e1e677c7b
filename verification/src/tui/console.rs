//! The console: what happens, and what is done about it.

use vstd::prelude::*;

use crate::backend::{
    BackendCommand, BackendCommandV, BackendResponse, BackendResponseV, RulesDryRunResult,
    RulesDryRunResultV,
};
use crate::config::{AccountConfig, AccountConfigV, RetentionPolicyConfig, RetentionPolicyConfigV};
use crate::data::{at, no_items, put, Dup};
use crate::pattern::{compile_regex, regex_of, regex_source};
use crate::text::same;
use crate::tui::input::Key;
use crate::tui::screen::{mouse_set, Terminal};
use crate::tui::views::mailbox_list::{
    blank_mailbox_list, mailboxes_asked, MailboxListView, MailboxListViewV,
};
use crate::tui::views::{
    law_response_keeps_views, popped, pushed, sent_to, stack_response, text3, view_key,
    view_pending, view_shown, view_sync, with_top, AnyView, AnyViewV, Outbox, OutboxV, ViewAction,
    ViewActionV, ViewStack, ViewStackV,
};

verus! {

broadcast use vstd::seq_lib::group_seq_properties;

/// What the console is told at its start.
#[derive(Debug)]
pub struct Settings {
    pub accounts: Vec<AccountConfig>,
    pub page_size: u32,
    pub browser: Option<String>,
    pub archive_folder: String,
    pub deleted_folder: String,
    pub reply_from: Option<String>,
    pub retention_policies: Vec<RetentionPolicyConfig>,
}

/// The contents of a `Settings`.
pub struct SettingsV {
    pub accounts: Seq<AccountConfigV>,
    pub page_size: u32,
    pub browser: Option<Seq<char>>,
    pub archive_folder: Seq<char>,
    pub deleted_folder: Seq<char>,
    pub reply_from: Option<Seq<char>>,
    pub retention_policies: Seq<RetentionPolicyConfigV>,
}

impl DeepView for Settings {
    type V = SettingsV;

    open spec fn deep_view(&self) -> SettingsV {
        SettingsV {
            accounts: self.accounts.deep_view(),
            page_size: self.page_size,
            browser: self.browser.deep_view(),
            archive_folder: self.archive_folder@,
            deleted_folder: self.deleted_folder@,
            reply_from: self.reply_from.deep_view(),
            retention_policies: self.retention_policies.deep_view(),
        }
    }
}

/// The console: its views, and the commands that they have sent.
#[derive(Debug)]
pub struct Console {
    pub settings: Settings,
    pub stack: ViewStack,
    pub out: Outbox,
}

/// The contents of a `Console`.
pub struct ConsoleV {
    pub settings: SettingsV,
    pub stack: ViewStackV,
    pub out: OutboxV,
}

impl DeepView for Console {
    type V = ConsoleV;

    open spec fn deep_view(&self) -> ConsoleV {
        ConsoleV {
            settings: self.settings.deep_view(),
            stack: self.stack.deep_view(),
            out: self.out.deep_view(),
        }
    }
}

/// What is to be done outside of the console: show it anew, end it, edit a
/// draft, show what the rules would do, or connect to another account.
#[derive(Debug)]
pub struct Effects {
    pub render: bool,
    pub quit: bool,
    pub edit: Option<String>,
    pub rules: Option<(String, RulesDryRunResult)>,
    pub switch_to: Option<usize>,
}

/// The contents of an `Effects`.
pub struct EffectsV {
    pub render: bool,
    pub quit: bool,
    pub edit: Option<Seq<char>>,
    pub rules: Option<(Seq<char>, RulesDryRunResultV)>,
    pub switch_to: Option<usize>,
}

impl DeepView for Effects {
    type V = EffectsV;

    open spec fn deep_view(&self) -> EffectsV {
        EffectsV {
            render: self.render,
            quit: self.quit,
            edit: self.edit.deep_view(),
            rules: self.rules.deep_view(),
            switch_to: self.switch_to.deep_view(),
        }
    }
}

// ---------------------------------------------------------------------------
// Start
// ---------------------------------------------------------------------------

/// The names of the first `k` accounts.
pub open spec fn account_names(accounts: Seq<AccountConfigV>) -> Seq<Seq<char>> {
    accounts.map_values(|a: AccountConfigV| a.name)
}

fn names_of(accounts: &Vec<AccountConfig>) -> (r: Vec<String>)
    ensures
        r.deep_view() == account_names(accounts.deep_view()),
{
    let ghost av = accounts.deep_view();
    let mut names: Vec<String> = no_items();
    let mut i: usize = 0;
    while i < accounts.len()
        invariant
            i <= accounts@.len(),
            av == accounts.deep_view(),
            names.deep_view() == account_names(av).take(i as int),
        decreases accounts@.len() - i,
    {
        put(&mut names, at(accounts.as_slice(), i).name.clone());
        assert(account_names(av).take(i + 1) =~= account_names(av).take(i as int).push(
            av[i as int].name,
        ));
        i = i + 1;
    }
    assert(account_names(av).take(av.len() as int) =~= account_names(av));
    names
}

/// The list of the mailboxes of an account, before they have come.
pub open spec fn first_view(s: SettingsV, account: int) -> MailboxListViewV {
    blank_mailbox_list(
        s.accounts[account].username,
        s.reply_from,
        s.browser,
        s.page_size,
        account_names(s.accounts),
        s.accounts[account].name,
        s.archive_folder,
        s.deleted_folder,
        s.retention_policies,
    )
}

/// The console with the mailboxes of an account, which are asked for.
pub open spec fn on_account(s: SettingsV, account: int, origin: Seq<char>) -> ConsoleV {
    ConsoleV {
        settings: s,
        stack: ViewStackV {
            views: Seq::empty().push(AnyViewV::Mailboxes(first_view(s, account))),
        },
        out: mailboxes_asked(OutboxV { open: true, sent: Seq::empty() }, origin),
    }
}

/// The text of the error for a pattern in the settings.
pub open spec fn bad_pattern(setting: Seq<char>, pattern: Seq<char>, e: Seq<char>) -> Seq<char> {
    "invalid "@ + setting + " '"@ + pattern + "': "@ + e
}

/// Compiles a pattern of the settings.
pub fn compile_setting(setting: &str, pattern: &str) -> (r: Result<regex::Regex, String>)
    ensures
        match r {
            Ok(re) => regex_of(pattern@) == Ok::<regex::Regex, Seq<char>>(re) && regex_source(re)
                == pattern@,
            Err(m) => match regex_of(pattern@) {
                Ok(_) => false,
                Err(e) => m@ == bad_pattern(setting@, pattern@, e),
            },
        },
{
    match compile_regex(pattern) {
        Ok(re) => Ok(re),
        Err(e) => {
            let mut s = text3("invalid ", setting, " '");
            s.append(pattern);
            s.append("': ");
            s.append(e.as_str());
            Err(s)
        },
    }
}

/// The editor for drafts: the one in the settings, else that of the environment,
/// else `vi`.
pub fn editor_command(editor: Option<String>, environment: Option<String>) -> (r: String)
    ensures
        r@ == (match (editor, environment) {
            (Some(e), _) => e@,
            (None, Some(e)) => e@,
            (None, None) => "vi"@,
        }),
{
    match editor {
        Some(e) => e,
        None => match environment {
            Some(e) => e,
            None => "vi".to_owned(),
        },
    }
}

// ---------------------------------------------------------------------------
// Events
// ---------------------------------------------------------------------------

/// Nothing to be done.
pub open spec fn no_effects() -> EffectsV {
    EffectsV { render: false, quit: false, edit: None, rules: None, switch_to: None }
}

/// The console is to be shown anew.
pub open spec fn shown_anew() -> EffectsV {
    EffectsV { render: true, ..no_effects() }
}

/// The first account at or after `i` with a name, or the number of accounts.
pub open spec fn account_index(accounts: Seq<AccountConfigV>, name: Seq<char>, i: int) -> int
    decreases accounts.len() - i,
{
    if i >= accounts.len() {
        accounts.len() as int
    } else if accounts[i].name == name {
        i
    } else {
        account_index(accounts, name, i + 1)
    }
}

/// The console at its end: the backend is told to stop.
pub open spec fn ended(c: ConsoleV) -> (ConsoleV, EffectsV) {
    (
        ConsoleV { out: sent_to(c.out, BackendCommandV::Shutdown), ..c },
        EffectsV { quit: true, ..no_effects() },
    )
}

/// The console after what a view wants after a key, and what is to be done.
pub open spec fn acted(c: ConsoleV, action: ViewActionV) -> (ConsoleV, EffectsV) {
    match action {
        ViewActionV::Continue => (c, shown_anew()),
        ViewActionV::Push(v) => (ConsoleV { stack: pushed(c.stack, v), ..c }, shown_anew()),
        ViewActionV::ShowRules { mailbox_name, preview } => (
            c,
            EffectsV { rules: Some((mailbox_name, preview)), ..shown_anew() },
        ),
        ViewActionV::Pop => if c.stack.views.len() > 1 {
            (ConsoleV { stack: popped(c.stack), ..c }, shown_anew())
        } else {
            ended(c)
        },
        ViewActionV::Quit => ended(c),
        ViewActionV::Compose(draft) => (c, EffectsV { edit: Some(draft), ..shown_anew() }),
        ViewActionV::SwitchAccount(name) => {
            let i = account_index(c.settings.accounts, name, 0);
            if i < c.settings.accounts.len() {
                (
                    ConsoleV { out: sent_to(c.out, BackendCommandV::Shutdown), ..c },
                    EffectsV { switch_to: Some(i as usize), ..shown_anew() },
                )
            } else {
                (c, no_effects())
            }
        },
    }
}

/// The console after what a view wants after something that happened before, and
/// what is to be done: views are opened, drafts edited and rules shown.
pub open spec fn followed_up(c: ConsoleV, action: Option<ViewActionV>) -> (ConsoleV, EffectsV) {
    match action {
        Some(ViewActionV::Push(v)) => acted(c, ViewActionV::Push(v)),
        Some(ViewActionV::ShowRules { mailbox_name, preview }) => acted(
            c,
            ViewActionV::ShowRules { mailbox_name, preview },
        ),
        Some(ViewActionV::Compose(draft)) => acted(c, ViewActionV::Compose(draft)),
        _ => (c, no_effects()),
    }
}

/// The console after the top view was asked what is to be done, and what is to be
/// done.
pub open spec fn pending_done(c: ConsoleV) -> (ConsoleV, EffectsV) {
    if c.stack.views.len() > 0 {
        let r = view_pending(c.stack.views.last(), c.out);
        followed_up(ConsoleV { stack: with_top(c.stack, r.0), out: r.1, ..c }, r.2)
    } else {
        (c, no_effects())
    }
}

/// The console after a response, and what is to be done.
pub open spec fn responded(c: ConsoleV, response: BackendResponseV, now: Seq<char>) -> (
    ConsoleV,
    EffectsV,
) {
    let r = stack_response(c.stack, c.out, response, now, c.stack.views.len() as int);
    let p = pending_done(ConsoleV { stack: r.0, out: r.1, ..c });
    (p.0, EffectsV { render: r.2 || p.1.render, ..p.1 })
}

/// The console after a key, and what is to be done.
pub open spec fn key_taken(c: ConsoleV, key: Key, rows: u16) -> (ConsoleV, EffectsV) {
    if c.stack.views.len() > 0 {
        let r = view_key(c.stack.views.last(), c.out, key, rows);
        acted(ConsoleV { stack: with_top(c.stack, r.0), out: r.1, ..c }, r.2)
    } else {
        ended(c)
    }
}

/// The console after the time for a refresh has come, and what is to be done.
pub open spec fn synced(c: ConsoleV) -> (ConsoleV, EffectsV) {
    if c.stack.views.len() > 0 {
        let r = view_sync(c.stack.views.last(), c.out);
        (
            ConsoleV { stack: with_top(c.stack, r.0), out: r.1, ..c },
            EffectsV { render: r.2, ..no_effects() },
        )
    } else {
        (c, no_effects())
    }
}

impl Effects {
    fn none() -> (r: Effects)
        ensures
            r.deep_view() == no_effects(),
    {
        Effects { render: false, quit: false, edit: None, rules: None, switch_to: None }
    }

    fn show() -> (r: Effects)
        ensures
            r.deep_view() == shown_anew(),
    {
        Effects { render: true, quit: false, edit: None, rules: None, switch_to: None }
    }
}

impl Console {
    fn start(settings: Settings, account: usize, origin: &str) -> (r: Console)
        requires
            account < settings.accounts@.len(),
        ensures
            r.deep_view() == on_account(settings.deep_view(), account as int, origin@),
    {
        let a = at(settings.accounts.as_slice(), account);
        let view = MailboxListView::new(
            a.username.clone(),
            settings.reply_from.dup(),
            settings.browser.dup(),
            settings.page_size,
            names_of(&settings.accounts),
            a.name.clone(),
            settings.archive_folder.clone(),
            settings.deleted_folder.clone(),
            settings.retention_policies.dup(),
        );
        let mut out = Outbox::new();
        let _ = out.send(BackendCommand::FetchMailboxes { origin: origin.to_owned() });
        let stack = ViewStack::new(AnyView::Mailboxes(view));
        Console { settings, stack, out }
    }

    /// The console at its start, on one of its accounts.
    pub fn new(settings: Settings, account: usize) -> (r: Console)
        requires
            account < settings.accounts@.len(),
        ensures
            r.deep_view() == on_account(settings.deep_view(), account as int, "startup"@),
    {
        Console::start(settings, account, "startup")
    }

    /// The console once it is connected to another account.
    pub fn switched(self, account: usize) -> (r: Console)
        requires
            account < self.settings.accounts@.len(),
        ensures
            r.deep_view() == on_account(
                self.deep_view().settings,
                account as int,
                "switch_account"@,
            ),
    {
        Console::start(self.settings, account, "switch_account")
    }

    fn position(&self, name: &str) -> (r: usize)
        ensures
            r == account_index(self.deep_view().settings.accounts, name@, 0),
            r <= self.settings.accounts@.len(),
    {
        let ghost av = self.settings.accounts.deep_view();
        let mut i: usize = 0;
        while i < self.settings.accounts.len()
            invariant
                i <= self.settings.accounts@.len(),
                av == self.settings.accounts.deep_view(),
                account_index(av, name@, 0) == account_index(av, name@, i as int),
            decreases self.settings.accounts@.len() - i,
        {
            if same(at(self.settings.accounts.as_slice(), i).name.as_str(), name) {
                return i;
            }
            i = i + 1;
        }
        i
    }

    fn end(&mut self) -> (r: Effects)
        ensures
            (final(self).deep_view(), r.deep_view()) == ended(old(self).deep_view()),
    {
        let _ = self.out.send(BackendCommand::Shutdown);
        Effects { render: false, quit: true, edit: None, rules: None, switch_to: None }
    }

    fn act(&mut self, action: ViewAction) -> (r: Effects)
        ensures
            (final(self).deep_view(), r.deep_view()) == acted(
                old(self).deep_view(),
                action.deep_view(),
            ),
    {
        match action {
            ViewAction::Continue => Effects::show(),
            ViewAction::Push(v) => {
                self.stack.push(v);
                Effects::show()
            },
            ViewAction::ShowRules { mailbox_name, preview } => Effects {
                render: true,
                quit: false,
                edit: None,
                rules: Some((mailbox_name, preview)),
                switch_to: None,
            },
            ViewAction::Pop => {
                if self.stack.pop() {
                    Effects::show()
                } else {
                    self.end()
                }
            },
            ViewAction::Quit => self.end(),
            ViewAction::Compose(draft) => Effects {
                render: true,
                quit: false,
                edit: Some(draft),
                rules: None,
                switch_to: None,
            },
            ViewAction::SwitchAccount(name) => {
                let i: usize = self.position(name.as_str());
                if i < self.settings.accounts.len() {
                    let _ = self.out.send(BackendCommand::Shutdown);
                    Effects {
                        render: true,
                        quit: false,
                        edit: None,
                        rules: None,
                        switch_to: Some(i),
                    }
                } else {
                    Effects::none()
                }
            },
        }
    }

    /// Does what is to be done after what happened before, such as a click whose
    /// row has been shown.
    pub fn on_idle(&mut self) -> (r: Effects)
        ensures
            (final(self).deep_view(), r.deep_view()) == pending_done(old(self).deep_view()),
    {
        match self.stack.take_pending_action(&mut self.out) {
            Some(ViewAction::Push(v)) => self.act(ViewAction::Push(v)),
            Some(ViewAction::ShowRules { mailbox_name, preview }) => self.act(
                ViewAction::ShowRules { mailbox_name, preview },
            ),
            Some(ViewAction::Compose(draft)) => self.act(ViewAction::Compose(draft)),
            _ => Effects::none(),
        }
    }

    /// Takes a response, at a time that is given as a text.
    pub fn on_response(&mut self, response: &BackendResponse, now: &str) -> (r: Effects)
        ensures
            (final(self).deep_view(), r.deep_view()) == responded(
                old(self).deep_view(),
                response.deep_view(),
                now@,
            ),
    {
        let render = self.stack.handle_response(response, now, &mut self.out);
        let mut effects = self.on_idle();
        effects.render = render || effects.render;
        effects
    }

    /// Takes a key.
    pub fn on_key(&mut self, key: Key, term_rows: u16) -> (r: Effects)
        ensures
            (final(self).deep_view(), r.deep_view()) == key_taken(
                old(self).deep_view(),
                key,
                term_rows,
            ),
    {
        match self.stack.handle_key(key, term_rows, &mut self.out) {
            Some(action) => self.act(action),
            None => self.end(),
        }
    }

    /// Lets the top view ask for a refresh, as is due from time to time.
    pub fn on_timer(&mut self) -> (r: Effects)
        ensures
            (final(self).deep_view(), r.deep_view()) == synced(old(self).deep_view()),
    {
        let render = self.stack.trigger_periodic_sync(&mut self.out);
        Effects { render, quit: false, edit: None, rules: None, switch_to: None }
    }

    /// Shows the top view, with reports of the mouse if it wants them.
    pub fn show(&self, term: &mut Terminal)
        ensures
            ({
                let s = self.deep_view().stack;
                let t = mouse_set(
                    old(term).deep_view(),
                    s.views.len() > 0 ==> !(s.views.last() is Email),
                );
                final(term).deep_view() == (if s.views.len() > 0 {
                    view_shown(t, s.views.last())
                } else {
                    t
                })
            }),
    {
        term.set_mouse_enabled(self.stack.wants_mouse());
        self.stack.render_current(term);
    }
}

/// However the console is used, there is always a view: no key, response or timer
/// takes the last one away.
pub proof fn law_there_is_always_a_view(
    c: ConsoleV,
    key: Key,
    rows: u16,
    response: BackendResponseV,
    now: Seq<char>,
)
    requires
        c.stack.views.len() > 0,
    ensures
        key_taken(c, key, rows).0.stack.views.len() > 0,
        responded(c, response, now).0.stack.views.len() > 0,
        pending_done(c).0.stack.views.len() > 0,
        synced(c).0.stack.views.len() > 0,
{
    law_response_keeps_views(c.stack, c.out, response, now);
}

/// The console ends only when it is told to, or the last view is left, and then the
/// last command that is sent tells the backend to stop.
pub proof fn law_end_stops_backend(c: ConsoleV, key: Key, rows: u16)
    requires
        key_taken(c, key, rows).1.quit,
        key_taken(c, key, rows).0.out.open,
    ensures
        key_taken(c, key, rows).0.out.sent.len() > 0,
        key_taken(c, key, rows).0.out.sent.last() == BackendCommandV::Shutdown,
{
}

} // verus!
