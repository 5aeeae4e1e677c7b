//! The list of keys.

use vstd::prelude::*;

use crate::backend::BackendResponse;
use crate::data::{at, no_items, put};
use crate::text::{dec, decimal, to_chars};
use crate::tui::input::Key;
use crate::tui::screen::{cleared, clipped, filled, moved, plain, written, Terminal, TerminalV};
use crate::tui::views::{
    count_items, pager_key, plus_one, scroll_pager, shown_items, ViewAction, ViewActionV,
};

verus! {

/// The list of keys.
#[derive(Debug)]
pub struct HelpView {
    pub lines: Vec<String>,
    pub scroll: usize,
}

/// The contents of a `HelpView`.
pub struct HelpViewV {
    pub lines: Seq<Seq<char>>,
    pub scroll: usize,
}

impl DeepView for HelpView {
    type V = HelpViewV;

    open spec fn deep_view(&self) -> HelpViewV {
        HelpViewV {
            lines: self.lines.deep_view(),
            scroll: self.scroll,
        }
    }
}

/// The lines of the list of keys.
pub open spec fn help_lines() -> Seq<Seq<char>> {
    Seq::<Seq<char>>::empty()
        .push("tmc - Timmy's Mail Console"@)
        .push("========================="@)
        .push(""@)
        .push("Global"@)
        .push("------"@)
        .push("  ?           Show this help"@)
        .push("  c           Compose new email"@)
        .push(""@)
        .push("Mailbox List"@)
        .push("------------"@)
        .push("  q           Quit"@)
        .push("  n/j/Down    Next mailbox"@)
        .push("  p/k/Up      Previous mailbox"@)
        .push("  Enter       Open mailbox"@)
        .push("  g           Refresh"@)
        .push("  +           Create folder"@)
        .push("  d           Delete selected folder"@)
        .push("  x           Preview retention expiry list"@)
        .push("  X           Expire retained mail now"@)
        .push("  PgDn        Page down"@)
        .push("  PgUp        Page up"@)
        .push("  Home        Jump to top"@)
        .push("  End         Jump to bottom"@)
        .push(""@)
        .push("Email List"@)
        .push("----------"@)
        .push("  q           Back to mailbox list"@)
        .push("  n/j/Down    Next email"@)
        .push("  p/k/Up      Previous email"@)
        .push("  Enter       Open email / thread reading view"@)
        .push("  Alt-Enter   Open thread list view"@)
        .push("  g           Refresh"@)
        .push("  R           Reply all to selected email"@)
        .push("  e           Dry-run rules on loaded messages"@)
        .push("  E           Run rules on loaded messages"@)
        .push("  a           Archive selected email/thread"@)
        .push("  d           Move selected email/thread to deleted folder"@)
        .push("  D           Expire selected email/thread now (deleted folder only)"@)
        .push("  f           Toggle flagged"@)
        .push("  u           Toggle read/unread"@)
        .push("  m           Move to folder"@)
        .push("  s           Search in mailbox"@)
        .push("  l           Load more messages"@)
        .push("  Escape      Clear search"@)
        .push("  PgDn        Page down"@)
        .push("  PgUp        Page up"@)
        .push("  Home        Jump to top"@)
        .push("  End         Jump to bottom"@)
        .push(""@)
        .push("Thread View"@)
        .push("-----------"@)
        .push("  q           Back to email list"@)
        .push("  n/j/Down    Next email"@)
        .push("  p/k/Up      Previous email"@)
        .push("  Enter       Open email"@)
        .push("  g           Refresh"@)
        .push("  a           Archive selected email"@)
        .push("  d           Move selected email to deleted folder"@)
        .push("  D           Expire selected email now (deleted folder only)"@)
        .push("  f           Toggle flagged"@)
        .push("  u           Toggle read/unread"@)
        .push("  PgDn        Page down"@)
        .push("  PgUp        Page up"@)
        .push("  Home        Jump to top"@)
        .push("  End         Jump to bottom"@)
        .push(""@)
        .push("Email View"@)
        .push("----------"@)
        .push("  q           Back to email list"@)
        .push("  n/j/Down    Scroll down"@)
        .push("  p/k/Up      Scroll up"@)
        .push("  Space/PgDn  Page down"@)
        .push("  PgUp        Page up"@)
        .push("  Home        Jump to top"@)
        .push("  End         Jump to bottom"@)
        .push("  r           Reply"@)
        .push("  R           Reply all"@)
        .push("  F           Forward"@)
        .push("  a           Download/open attachment"@)
        .push("  v           Toggle raw headers (DKIM, Received, etc)"@)
        .push("  f           Toggle flagged"@)
        .push("  u           Toggle read/unread"@)
        .push("  D           Expire now (deleted folder only)"@)
        .push(""@)
}

/// The list of keys from its start.
pub open spec fn help_view() -> HelpViewV {
    HelpViewV { lines: help_lines(), scroll: 0 }
}

/// Whether a line is a heading.
pub open spec fn is_heading(line: Seq<char>) -> bool {
    line.len() > 0 && line[0] != ' ' && line[0] != '-' && line[0] != '='
}

fn heading(line: &str) -> (r: bool)
    ensures
        r == is_heading(line@),
{
    let v = to_chars(line);
    v.len() > 0 && v[0] != ' ' && v[0] != '-' && v[0] != '='
}

/// The terminal after a line on a row.
pub open spec fn help_row(t: TerminalV, row: u16, line: Seq<char>) -> TerminalV {
    let a = moved(t, row, 1);
    if is_heading(line) {
        plain(clipped(written(a, "\x1b[1m"@), line, t.cols))
    } else {
        clipped(a, line, t.cols)
    }
}

/// The terminal after the first `k` lines that are shown.
pub open spec fn help_rows(t: TerminalV, v: HelpViewV, k: nat) -> TerminalV
    decreases k,
{
    if k == 0 {
        t
    } else {
        help_row(help_rows(t, v, (k - 1) as nat), k as u16, v.lines[v.scroll + k - 1])
    }
}

/// The status of the list of keys.
pub open spec fn help_status(v: HelpViewV) -> Seq<char> {
    " Help | line "@ + decimal(plus_one(v.scroll) as nat) + "/"@ + decimal(v.lines.len())
        + " | q:close n/j:down p/k:up"@
}

/// The terminal after the list of keys.
pub open spec fn help_shown(t: TerminalV, v: HelpViewV) -> TerminalV {
    let c = cleared(t);
    let r = help_rows(c, v, shown_items(v.scroll, v.lines.len(), t.rows, 1));
    filled(written(moved(r, t.rows, 1), "\x1b[7m"@), help_status(v))
}

/// The list of keys after a key, and what is to be done.
pub open spec fn help_key(v: HelpViewV, key: Key, rows: u16) -> (HelpViewV, ViewActionV) {
    if key == Key::Char('q') || key == Key::Char('?') || key == Key::Escape {
        (v, ViewActionV::Pop)
    } else {
        (
            match pager_key(key, v.scroll, v.lines.len(), rows) {
                Some(s) => HelpViewV { scroll: s, ..v },
                None => v,
            },
            ViewActionV::Continue,
        )
    }
}

impl HelpView {
    /// The list of keys from its start.
    pub fn new() -> (r: HelpView)
        ensures
            r.deep_view() == help_view(),
    {
        let mut lines: Vec<String> = no_items();
        put(&mut lines, "tmc - Timmy's Mail Console".to_owned());
        put(&mut lines, "=========================".to_owned());
        put(&mut lines, "".to_owned());
        put(&mut lines, "Global".to_owned());
        put(&mut lines, "------".to_owned());
        put(&mut lines, "  ?           Show this help".to_owned());
        put(&mut lines, "  c           Compose new email".to_owned());
        put(&mut lines, "".to_owned());
        put(&mut lines, "Mailbox List".to_owned());
        put(&mut lines, "------------".to_owned());
        put(&mut lines, "  q           Quit".to_owned());
        put(&mut lines, "  n/j/Down    Next mailbox".to_owned());
        put(&mut lines, "  p/k/Up      Previous mailbox".to_owned());
        put(&mut lines, "  Enter       Open mailbox".to_owned());
        put(&mut lines, "  g           Refresh".to_owned());
        put(&mut lines, "  +           Create folder".to_owned());
        put(&mut lines, "  d           Delete selected folder".to_owned());
        put(&mut lines, "  x           Preview retention expiry list".to_owned());
        put(&mut lines, "  X           Expire retained mail now".to_owned());
        put(&mut lines, "  PgDn        Page down".to_owned());
        put(&mut lines, "  PgUp        Page up".to_owned());
        put(&mut lines, "  Home        Jump to top".to_owned());
        put(&mut lines, "  End         Jump to bottom".to_owned());
        put(&mut lines, "".to_owned());
        put(&mut lines, "Email List".to_owned());
        put(&mut lines, "----------".to_owned());
        put(&mut lines, "  q           Back to mailbox list".to_owned());
        put(&mut lines, "  n/j/Down    Next email".to_owned());
        put(&mut lines, "  p/k/Up      Previous email".to_owned());
        put(&mut lines, "  Enter       Open email / thread reading view".to_owned());
        put(&mut lines, "  Alt-Enter   Open thread list view".to_owned());
        put(&mut lines, "  g           Refresh".to_owned());
        put(&mut lines, "  R           Reply all to selected email".to_owned());
        put(&mut lines, "  e           Dry-run rules on loaded messages".to_owned());
        put(&mut lines, "  E           Run rules on loaded messages".to_owned());
        put(&mut lines, "  a           Archive selected email/thread".to_owned());
        put(&mut lines, "  d           Move selected email/thread to deleted folder".to_owned());
        put(&mut lines, "  D           Expire selected email/thread now (deleted folder only)".to_owned());
        put(&mut lines, "  f           Toggle flagged".to_owned());
        put(&mut lines, "  u           Toggle read/unread".to_owned());
        put(&mut lines, "  m           Move to folder".to_owned());
        put(&mut lines, "  s           Search in mailbox".to_owned());
        put(&mut lines, "  l           Load more messages".to_owned());
        put(&mut lines, "  Escape      Clear search".to_owned());
        put(&mut lines, "  PgDn        Page down".to_owned());
        put(&mut lines, "  PgUp        Page up".to_owned());
        put(&mut lines, "  Home        Jump to top".to_owned());
        put(&mut lines, "  End         Jump to bottom".to_owned());
        put(&mut lines, "".to_owned());
        put(&mut lines, "Thread View".to_owned());
        put(&mut lines, "-----------".to_owned());
        put(&mut lines, "  q           Back to email list".to_owned());
        put(&mut lines, "  n/j/Down    Next email".to_owned());
        put(&mut lines, "  p/k/Up      Previous email".to_owned());
        put(&mut lines, "  Enter       Open email".to_owned());
        put(&mut lines, "  g           Refresh".to_owned());
        put(&mut lines, "  a           Archive selected email".to_owned());
        put(&mut lines, "  d           Move selected email to deleted folder".to_owned());
        put(&mut lines, "  D           Expire selected email now (deleted folder only)".to_owned());
        put(&mut lines, "  f           Toggle flagged".to_owned());
        put(&mut lines, "  u           Toggle read/unread".to_owned());
        put(&mut lines, "  PgDn        Page down".to_owned());
        put(&mut lines, "  PgUp        Page up".to_owned());
        put(&mut lines, "  Home        Jump to top".to_owned());
        put(&mut lines, "  End         Jump to bottom".to_owned());
        put(&mut lines, "".to_owned());
        put(&mut lines, "Email View".to_owned());
        put(&mut lines, "----------".to_owned());
        put(&mut lines, "  q           Back to email list".to_owned());
        put(&mut lines, "  n/j/Down    Scroll down".to_owned());
        put(&mut lines, "  p/k/Up      Scroll up".to_owned());
        put(&mut lines, "  Space/PgDn  Page down".to_owned());
        put(&mut lines, "  PgUp        Page up".to_owned());
        put(&mut lines, "  Home        Jump to top".to_owned());
        put(&mut lines, "  End         Jump to bottom".to_owned());
        put(&mut lines, "  r           Reply".to_owned());
        put(&mut lines, "  R           Reply all".to_owned());
        put(&mut lines, "  F           Forward".to_owned());
        put(&mut lines, "  a           Download/open attachment".to_owned());
        put(&mut lines, "  v           Toggle raw headers (DKIM, Received, etc)".to_owned());
        put(&mut lines, "  f           Toggle flagged".to_owned());
        put(&mut lines, "  u           Toggle read/unread".to_owned());
        put(&mut lines, "  D           Expire now (deleted folder only)".to_owned());
        put(&mut lines, "".to_owned());
        HelpView { lines, scroll: 0 }
    }

    /// Shows the list.
    pub fn render(&self, term: &mut Terminal)
        ensures
            final(term).deep_view() == help_shown(old(term).deep_view(), self.deep_view()),
    {
        let ghost v = self.deep_view();
        term.clear();
        let ghost c = term.deep_view();
        let n: u16 = count_items(self.scroll, self.lines.len(), term.rows, 1);
        let mut i: u16 = 0;
        while i < n
            invariant
                i <= n,
                v == self.deep_view(),
                self.lines@.len() <= usize::MAX,
                n <= shown_items(v.scroll, v.lines.len(), c.rows, 1),
                n < c.rows || n == 0,
                term.deep_view() == help_rows(c, v, i as nat),
                term.rows == c.rows,
                term.cols == c.cols,
            decreases n - i,
        {
            assert(self.scroll + i < self.lines@.len());
            let line = at(self.lines.as_slice(), self.scroll + i as usize);
            i = i + 1;
            term.move_to(i, 1);
            if heading(line.as_str()) {
                term.set_bold();
                term.write_truncated(line.as_str(), term.cols);
                term.reset_attr();
            } else {
                term.write_truncated(line.as_str(), term.cols);
            }
        }
        term.move_to(term.rows, 1);
        term.set_reverse();
        let mut status = " Help | line ".to_owned();
        status.append(dec(self.scroll.saturating_add(1) as u64).as_str());
        status.append("/");
        status.append(dec(self.lines.len() as u64).as_str());
        status.append(" | q:close n/j:down p/k:up");
        term.write_filled(status.as_str());
    }

    /// Takes a key.
    pub fn handle_key(&mut self, key: Key, term_rows: u16) -> (r: ViewAction)
        ensures
            (final(self).deep_view(), r.deep_view()) == help_key(
                old(self).deep_view(),
                key,
                term_rows,
            ),
    {
        if key == Key::Char('q') || key == Key::Char('?') || key == Key::Escape {
            return ViewAction::Pop;
        }
        match scroll_pager(key, self.scroll, self.lines.len(), term_rows) {
            Some(s) => {
                self.scroll = s;
            },
            None => {},
        }
        ViewAction::Continue
    }

    /// Takes a response, which changes nothing.
    pub fn on_response(&mut self, response: &BackendResponse) -> (r: bool)
        ensures
            final(self).deep_view() == old(self).deep_view(),
            !r,
    {
        false
    }
}

} // verus!
