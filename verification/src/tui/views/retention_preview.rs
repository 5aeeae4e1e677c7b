//! The messages that retention policies would let go.

use vstd::prelude::*;

use crate::backend::{BackendResponse, RetentionCandidate, RetentionCandidateV};
use crate::data::{at, no_items, put};
use crate::text::{dec, decimal};
use crate::tui::input::Key;
use crate::tui::screen::{cleared, row_header, row_text, status_line, Terminal, TerminalV};
use crate::tui::views::{
    count_items, pager_key, plus_one, scroll_pager, shown_items, ViewAction, ViewActionV,
};

verus! {

broadcast use vstd::seq_lib::group_seq_properties;

/// The messages that retention policies would let go.
#[derive(Debug)]
pub struct RetentionPreviewView {
    pub lines: Vec<String>,
    pub scroll: usize,
}

/// The contents of a `RetentionPreviewView`.
pub struct RetentionPreviewViewV {
    pub lines: Seq<Seq<char>>,
    pub scroll: usize,
}

impl DeepView for RetentionPreviewView {
    type V = RetentionPreviewViewV;

    open spec fn deep_view(&self) -> RetentionPreviewViewV {
        RetentionPreviewViewV {
            lines: self.lines.deep_view(),
            scroll: self.scroll,
        }
    }
}

/// The line of a message that would go.
pub open spec fn candidate_line(c: RetentionCandidateV) -> Seq<char> {
    "["@ + c.policy + "] "@ + c.received_at + " | "@ + c.mailbox + " | "@ + c.from + " | "@
        + c.subject
}

fn line_of(c: &RetentionCandidate) -> (r: String)
    ensures
        r@ == candidate_line(c.deep_view()),
{
    let mut s = "[".to_owned();
    s.append(c.policy.as_str());
    s.append("] ");
    s.append(c.received_at.as_str());
    s.append(" | ");
    s.append(c.mailbox.as_str());
    s.append(" | ");
    s.append(c.from.as_str());
    s.append(" | ");
    s.append(c.subject.as_str());
    s
}

/// The lines of the preview.
pub open spec fn preview_lines(candidates: Seq<RetentionCandidateV>) -> Seq<Seq<char>> {
    let head = seq![
        "Retention expiry preview ("@ + decimal(candidates.len()) + " messages)"@,
        ""@,
    ];
    if candidates.len() == 0 {
        head.push("No messages would be expired by current policies."@)
    } else {
        head + candidates.map_values(|c: RetentionCandidateV| candidate_line(c))
    }
}

/// The preview from its start.
pub open spec fn preview_of(candidates: Seq<RetentionCandidateV>) -> RetentionPreviewViewV {
    RetentionPreviewViewV { lines: preview_lines(candidates), scroll: 0 }
}

/// The terminal after the first `k` lines that are shown.
pub open spec fn preview_rows(t: TerminalV, v: RetentionPreviewViewV, k: nat) -> TerminalV
    decreases k,
{
    if k == 0 {
        t
    } else {
        let before = preview_rows(t, v, (k - 1) as nat);
        let line = v.lines[v.scroll + k - 1];
        if k == 1 && v.scroll == 0 {
            row_header(before, k as u16, line)
        } else {
            row_text(before, k as u16, line)
        }
    }
}

/// The status of the preview.
pub open spec fn preview_status(v: RetentionPreviewViewV) -> Seq<char> {
    " Preview | line "@ + decimal(plus_one(v.scroll) as nat) + "/"@ + decimal(v.lines.len())
        + " | q/Esc/Enter:close n/p:scroll"@
}

/// The terminal after the preview.
pub open spec fn preview_shown(t: TerminalV, v: RetentionPreviewViewV) -> TerminalV {
    status_line(
        preview_rows(cleared(t), v, shown_items(v.scroll, v.lines.len(), t.rows, 1)),
        preview_status(v),
    )
}

/// The preview after a key, and what is to be done.
pub open spec fn preview_key(v: RetentionPreviewViewV, key: Key, rows: u16) -> (
    RetentionPreviewViewV,
    ViewActionV,
) {
    if key == Key::Char('q') || key == Key::Escape || key == Key::Enter {
        (v, ViewActionV::Pop)
    } else {
        (
            match pager_key(key, v.scroll, v.lines.len(), rows) {
                Some(s) => RetentionPreviewViewV { scroll: s, ..v },
                None => v,
            },
            ViewActionV::Continue,
        )
    }
}

impl RetentionPreviewView {
    /// The preview of the messages that would go.
    pub fn new(candidates: Vec<RetentionCandidate>) -> (r: RetentionPreviewView)
        ensures
            r.deep_view() == preview_of(candidates.deep_view()),
    {
        let ghost cs = candidates.deep_view();
        let mut head = "Retention expiry preview (".to_owned();
        head.append(dec(candidates.len() as u64).as_str());
        head.append(" messages)");
        let mut lines: Vec<String> = no_items();
        put(&mut lines, head);
        put(&mut lines, "".to_owned());
        assert(lines.deep_view() =~= seq![
            "Retention expiry preview ("@ + decimal(cs.len()) + " messages)"@,
            ""@,
        ]);
        if candidates.len() == 0 {
            put(&mut lines, "No messages would be expired by current policies.".to_owned());
        } else {
            let ghost top = lines.deep_view();
            let mut i: usize = 0;
            while i < candidates.len()
                invariant
                    i <= candidates@.len(),
                    cs == candidates.deep_view(),
                    lines.deep_view() == top + cs.take(i as int).map_values(
                        |c: RetentionCandidateV| candidate_line(c),
                    ),
                decreases candidates@.len() - i,
            {
                let line = line_of(at(candidates.as_slice(), i));
                put(&mut lines, line);
                assert(cs.take(i + 1) =~= cs.take(i as int).push(cs[i as int]));
                i = i + 1;
                assert(lines.deep_view() =~= top + cs.take(i as int).map_values(
                    |c: RetentionCandidateV| candidate_line(c),
                ));
            }
            assert(cs.take(cs.len() as int) =~= cs);
        }
        assert(lines.deep_view() =~= preview_lines(cs));
        RetentionPreviewView { lines, scroll: 0 }
    }

    /// Shows the preview.
    pub fn render(&self, term: &mut Terminal)
        ensures
            final(term).deep_view() == preview_shown(old(term).deep_view(), self.deep_view()),
    {
        let ghost v = self.deep_view();
        term.clear();
        let ghost c = term.deep_view();
        let n: u16 = count_items(self.scroll, self.lines.len(), term.rows, 1);
        let mut i: u16 = 0;
        while i < n
            invariant
                i <= n,
                v == self.deep_view(),
                self.lines@.len() <= usize::MAX,
                n <= shown_items(v.scroll, v.lines.len(), c.rows, 1),
                n < c.rows || n == 0,
                term.deep_view() == preview_rows(c, v, i as nat),
            decreases n - i,
        {
            assert(self.scroll + i < self.lines@.len());
            let line = at(self.lines.as_slice(), self.scroll + i as usize);
            i = i + 1;
            if i == 1 && self.scroll == 0 {
                term.write_row_header(i, line.as_str());
            } else {
                term.write_row(i, line.as_str());
            }
        }
        let mut status = " Preview | line ".to_owned();
        status.append(dec(self.scroll.saturating_add(1) as u64).as_str());
        status.append("/");
        status.append(dec(self.lines.len() as u64).as_str());
        status.append(" | q/Esc/Enter:close n/p:scroll");
        term.write_status(status.as_str());
    }

    /// Takes a key.
    pub fn handle_key(&mut self, key: Key, term_rows: u16) -> (r: ViewAction)
        ensures
            (final(self).deep_view(), r.deep_view()) == preview_key(
                old(self).deep_view(),
                key,
                term_rows,
            ),
    {
        if key == Key::Char('q') || key == Key::Escape || key == Key::Enter {
            return ViewAction::Pop;
        }
        match scroll_pager(key, self.scroll, self.lines.len(), term_rows) {
            Some(s) => {
                self.scroll = s;
            },
            None => {},
        }
        ViewAction::Continue
    }

    /// Takes a response, which changes nothing.
    pub fn on_response(&mut self, response: &BackendResponse) -> (r: bool)
        ensures
            final(self).deep_view() == old(self).deep_view(),
            !r,
    {
        false
    }
}

} // verus!
