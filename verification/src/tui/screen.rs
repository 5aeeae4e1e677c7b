//! What is written to a terminal.
//!
//! A `Terminal` gathers the text and the control sequences; a caller writes what
//! has been gathered to the real terminal.

use vstd::prelude::*;

use crate::compose::{byte_prefix, take_bytes};
use crate::config::{Rgb, Theme};
use crate::text::{byte_len, count_bytes, dec, decimal};
use crate::tui::layout::{repeat, repeated};

verus! {

broadcast use vstd::seq_lib::group_seq_properties;

/// A terminal: its size, its state, and what is to be written to it.
#[derive(Debug)]
pub struct Terminal {
    pub rows: u16,
    pub cols: u16,
    pub mouse_supported: bool,
    pub mouse_enabled: bool,
    pub theme: Theme,
    pub in_selection: bool,
    pub out: String,
}

/// The contents of a `Terminal`.
pub struct TerminalV {
    pub rows: u16,
    pub cols: u16,
    pub mouse_supported: bool,
    pub mouse_enabled: bool,
    pub theme: Theme,
    pub in_selection: bool,
    pub out: Seq<char>,
}

impl DeepView for Terminal {
    type V = TerminalV;

    open spec fn deep_view(&self) -> TerminalV {
        TerminalV {
            rows: self.rows,
            cols: self.cols,
            mouse_supported: self.mouse_supported,
            mouse_enabled: self.mouse_enabled,
            theme: self.theme,
            in_selection: self.in_selection,
            out: self.out@,
        }
    }
}

/// The sequence that sets a colour; nothing if there is none.
pub open spec fn colour(code: Seq<char>, c: Option<Rgb>) -> Seq<char> {
    match c {
        Some(c) => "\x1b["@ + code + ";2;"@ + decimal(c.r as nat) + ";"@ + decimal(c.g as nat) + ";"@
            + decimal(c.b as nat) + "m"@,
        None => Seq::empty(),
    }
}

/// The sequence that sets the background; nothing if it has no colour.
pub open spec fn background(c: Option<Rgb>) -> Seq<char> {
    colour("48"@, c)
}

/// The sequence that sets the foreground; nothing if it has no colour.
pub open spec fn foreground(c: Option<Rgb>) -> Seq<char> {
    colour("38"@, c)
}

/// The sequence that sets both colours, or swaps them if there are none.
pub open spec fn colours_or_reverse(bg: Option<Rgb>, fg: Option<Rgb>) -> Seq<char> {
    if bg is None && fg is None {
        "\x1b[7m"@
    } else {
        background(bg) + foreground(fg)
    }
}

fn colour_text(code: &str, c: Option<Rgb>) -> (r: String)
    ensures
        r@ == colour(code@, c),
{
    match c {
        Some(c) => {
            let mut s = "\x1b[".to_owned();
            s.append(code);
            s.append(";2;");
            s.append(dec(c.r as u64).as_str());
            s.append(";");
            s.append(dec(c.g as u64).as_str());
            s.append(";");
            s.append(dec(c.b as u64).as_str());
            s.append("m");
            s
        },
        None => String::new(),
    }
}

fn colours_text(bg: Option<Rgb>, fg: Option<Rgb>) -> (r: String)
    ensures
        r@ == colours_or_reverse(bg, fg),
{
    if bg.is_none() && fg.is_none() {
        return "\x1b[7m".to_owned();
    }
    let mut s = colour_text("48", bg);
    s.append(colour_text("38", fg).as_str());
    s
}

/// The terminal after a text.
pub open spec fn written(t: TerminalV, s: Seq<char>) -> TerminalV {
    TerminalV { out: t.out + s, ..t }
}

/// The terminal after reports of the mouse are turned on or off, if there is a
/// mouse.
pub open spec fn mouse_set(t: TerminalV, enabled: bool) -> TerminalV {
    if !t.mouse_supported || t.mouse_enabled == enabled {
        t
    } else {
        TerminalV {
            mouse_enabled: enabled,
            out: t.out + (if enabled {
                "\x1b[?1000h\x1b[?1006h"@
            } else {
                "\x1b[?1000l\x1b[?1006l"@
            }),
            ..t
        }
    }
}

/// The terminal after it is emptied.
pub open spec fn cleared(t: TerminalV) -> TerminalV {
    written(t, "\x1b[2J\x1b[H"@)
}

/// The terminal after the cursor is placed.
pub open spec fn moved(t: TerminalV, row: u16, col: u16) -> TerminalV {
    TerminalV {
        out: t.out + "\x1b["@ + decimal(row as nat) + ";"@ + decimal(col as nat) + "H"@,
        ..t
    }
}

/// The terminal after its colours are set back.
pub open spec fn plain(t: TerminalV) -> TerminalV {
    TerminalV {
        out: t.out + "\x1b[0m"@ + background(t.theme.bg) + foreground(t.theme.fg),
        in_selection: false,
        ..t
    }
}

/// The terminal with the colours of the selected line.
pub open spec fn selected(t: TerminalV) -> TerminalV {
    TerminalV {
        out: t.out + colours_or_reverse(t.theme.selection_bg, t.theme.selection_fg),
        in_selection: true,
        ..t
    }
}

/// The terminal with the colours of the status line.
pub open spec fn in_status(t: TerminalV) -> TerminalV {
    written(t, colours_or_reverse(t.theme.status_bg, t.theme.status_fg))
}

/// The terminal with the colours of a heading.
pub open spec fn in_header(t: TerminalV) -> TerminalV {
    TerminalV { out: t.out + "\x1b[1m"@ + foreground(t.theme.header_fg), ..t }
}

/// The terminal with the colours of unread lines; the selected line keeps its
/// own.
pub open spec fn in_bold(t: TerminalV) -> TerminalV {
    TerminalV {
        out: t.out + "\x1b[1m"@ + (if t.in_selection {
            Seq::empty()
        } else {
            foreground(t.theme.bold_fg)
        }),
        ..t
    }
}

/// The terminal after as much of a text as takes at most `max` bytes.
pub open spec fn clipped(t: TerminalV, s: Seq<char>, max: u16) -> TerminalV {
    written(t, byte_prefix(s, max as nat))
}

/// The terminal after a row is filled with a text, and spaces to its end.
pub open spec fn filled(t: TerminalV, s: Seq<char>) -> TerminalV {
    plain(
        written(
            clipped(t, s, t.cols),
            repeated(
                ' ',
                if byte_len(s) < t.cols {
                    (t.cols - byte_len(s)) as nat
                } else {
                    0
                },
            ),
        ),
    )
}

/// The terminal after a status line on its last row.
pub open spec fn status_line(t: TerminalV, s: Seq<char>) -> TerminalV {
    filled(in_status(moved(t, t.rows, 1)), s)
}

/// The terminal after a heading on its first row and a line below it.
pub open spec fn title(t: TerminalV, s: Seq<char>) -> TerminalV {
    let a = in_header(moved(cleared(t), 1, 1));
    let b = moved(plain(clipped(a, s, a.cols)), 2, 1);
    written(b, repeated('-', t.cols as nat))
}

/// The terminal after a text at the start of a row.
pub open spec fn row_text(t: TerminalV, row: u16, s: Seq<char>) -> TerminalV {
    let a = moved(t, row, 1);
    clipped(a, s, a.cols)
}

/// The terminal after a heading at the start of a row.
pub open spec fn row_header(t: TerminalV, row: u16, s: Seq<char>) -> TerminalV {
    let a = in_header(moved(t, row, 1));
    plain(clipped(a, s, a.cols))
}

impl Terminal {
    /// A terminal of a size that has just been taken over.
    pub fn new(mouse: bool, theme: Theme, rows: u16, cols: u16) -> (r: Terminal)
        ensures
            r.deep_view() == (TerminalV {
                rows,
                cols,
                mouse_supported: mouse,
                mouse_enabled: mouse,
                theme,
                in_selection: false,
                out: "\x1b[?1049h\x1b[?25l"@ + background(theme.bg) + foreground(theme.fg) + (
                if mouse {
                    "\x1b[?1000h\x1b[?1006h"@
                } else {
                    Seq::empty()
                }),
            }),
    {
        let mut out = "\x1b[?1049h\x1b[?25l".to_owned();
        out.append(colour_text("48", theme.bg).as_str());
        out.append(colour_text("38", theme.fg).as_str());
        if mouse {
            out.append("\x1b[?1000h\x1b[?1006h");
        } else {
            assert(out@ + Seq::<char>::empty() =~= out@);
        }
        Terminal {
            rows,
            cols,
            mouse_supported: mouse,
            mouse_enabled: mouse,
            theme,
            in_selection: false,
            out,
        }
    }

    /// Turns reports of the mouse on or off, if there is a mouse.
    pub fn set_mouse_enabled(&mut self, enabled: bool)
        ensures
            final(self).deep_view() == mouse_set(old(self).deep_view(), enabled),
    {
        if !self.mouse_supported || self.mouse_enabled == enabled {
            return;
        }
        if enabled {
            self.out.append("\x1b[?1000h\x1b[?1006h");
        } else {
            self.out.append("\x1b[?1000l\x1b[?1006l");
        }
        self.mouse_enabled = enabled;
    }

    /// Takes on a new size.
    pub fn resize(&mut self, rows: u16, cols: u16)
        ensures
            final(self).deep_view() == (TerminalV { rows, cols, ..old(self).deep_view() }),
    {
        self.rows = rows;
        self.cols = cols;
    }

    /// Empties the screen.
    pub fn clear(&mut self)
        ensures
            final(self).deep_view() == cleared(old(self).deep_view()),
    {
        self.out.append("\x1b[2J\x1b[H");
    }

    /// Places the cursor.
    pub fn move_to(&mut self, row: u16, col: u16)
        ensures
            final(self).deep_view() == moved(old(self).deep_view(), row, col),
    {
        self.out.append("\x1b[");
        self.out.append(dec(row as u64).as_str());
        self.out.append(";");
        self.out.append(dec(col as u64).as_str());
        self.out.append("H");
    }

    /// Empties the row from the cursor on.
    pub fn clear_line(&mut self)
        ensures
            final(self).deep_view() == written(old(self).deep_view(), "\x1b[K"@),
    {
        self.out.append("\x1b[K");
    }

    /// Writes a text.
    pub fn write_str(&mut self, s: &str)
        ensures
            final(self).deep_view() == written(old(self).deep_view(), s@),
    {
        self.out.append(s);
    }

    /// Swaps the colours.
    pub fn set_reverse(&mut self)
        ensures
            final(self).deep_view() == written(old(self).deep_view(), "\x1b[7m"@),
    {
        self.out.append("\x1b[7m");
    }

    /// Makes what follows bold.
    pub fn set_bold(&mut self)
        ensures
            final(self).deep_view() == written(old(self).deep_view(), "\x1b[1m"@),
    {
        self.out.append("\x1b[1m");
    }

    /// Sets the colours back to those of the theme.
    pub fn reset_attr(&mut self)
        ensures
            final(self).deep_view() == plain(old(self).deep_view()),
    {
        self.out.append("\x1b[0m");
        self.in_selection = false;
        self.out.append(colour_text("48", self.theme.bg).as_str());
        self.out.append(colour_text("38", self.theme.fg).as_str());
    }

    /// Sets the colours of the selected line.
    pub fn set_selection(&mut self)
        ensures
            final(self).deep_view() == selected(old(self).deep_view()),
    {
        self.in_selection = true;
        self.out.append(colours_text(self.theme.selection_bg, self.theme.selection_fg).as_str());
    }

    /// Sets the colours of the status line.
    pub fn set_status(&mut self)
        ensures
            final(self).deep_view() == in_status(old(self).deep_view()),
    {
        self.out.append(colours_text(self.theme.status_bg, self.theme.status_fg).as_str());
    }

    /// Sets the colours of a heading.
    pub fn set_header(&mut self)
        ensures
            final(self).deep_view() == in_header(old(self).deep_view()),
    {
        self.out.append("\x1b[1m");
        self.out.append(colour_text("38", self.theme.header_fg).as_str());
    }

    /// Sets the colours of unread lines.
    pub fn set_bold_text(&mut self)
        ensures
            final(self).deep_view() == in_bold(old(self).deep_view()),
    {
        self.out.append("\x1b[1m");
        if !self.in_selection {
            self.out.append(colour_text("38", self.theme.bold_fg).as_str());
        } else {
            assert(self.out@ + Seq::<char>::empty() =~= self.out@);
        }
    }

    /// Writes as much of a text as takes at most `max_width` bytes.
    pub fn write_truncated(&mut self, s: &str, max_width: u16)
        ensures
            final(self).deep_view() == clipped(old(self).deep_view(), s@, max_width),
    {
        self.out.append(take_bytes(s, max_width as usize).as_str());
    }

    /// Hands out what is to be written.
    pub fn flush(&mut self) -> (r: String)
        ensures
            r@ == old(self).deep_view().out,
            final(self).deep_view() == (TerminalV { out: Seq::empty(), ..old(self).deep_view() }),
    {
        let r = self.out.clone();
        self.out = String::new();
        r
    }

    /// What gives the terminal back as it was.
    pub fn farewell(&self) -> (r: String)
        ensures
            r@ == (if self.mouse_enabled {
                "\x1b[?1000l\x1b[?1006l"@ + "\x1b[0m\x1b[?25h\x1b[?1049l"@
            } else {
                "\x1b[0m\x1b[?25h\x1b[?1049l"@
            }),
    {
        if self.mouse_enabled {
            let mut s = "\x1b[?1000l\x1b[?1006l".to_owned();
            s.append("\x1b[0m\x1b[?25h\x1b[?1049l");
            s
        } else {
            "\x1b[0m\x1b[?25h\x1b[?1049l".to_owned()
        }
    }

    /// Writes a status line: the text, and spaces to the end of the row.
    pub fn write_status(&mut self, s: &str)
        ensures
            final(self).deep_view() == status_line(old(self).deep_view(), s@),
    {
        self.move_to(self.rows, 1);
        self.set_status();
        self.write_filled(s);
    }

    /// Fills a row with a text, and spaces to its end.
    pub fn write_filled(&mut self, s: &str)
        ensures
            final(self).deep_view() == filled(old(self).deep_view(), s@),
    {
        self.write_truncated(s, self.cols);
        let n: usize = count_bytes(s);
        let rest: usize = if n < self.cols as usize {
            self.cols as usize - n
        } else {
            0
        };
        self.write_str(repeat(' ', rest).as_str());
        self.reset_attr();
    }

    /// Empties the screen and writes a heading with a line below it.
    pub fn write_title(&mut self, s: &str)
        ensures
            final(self).deep_view() == title(old(self).deep_view(), s@),
    {
        self.clear();
        self.move_to(1, 1);
        self.set_header();
        self.write_truncated(s, self.cols);
        self.reset_attr();
        self.move_to(2, 1);
        self.write_str(repeat('-', self.cols as usize).as_str());
    }

    /// Writes a text at the start of a row.
    pub fn write_row(&mut self, row: u16, s: &str)
        ensures
            final(self).deep_view() == row_text(old(self).deep_view(), row, s@),
    {
        self.move_to(row, 1);
        self.write_truncated(s, self.cols);
    }

    /// Writes a heading at the start of a row.
    pub fn write_row_header(&mut self, row: u16, s: &str)
        ensures
            final(self).deep_view() == row_header(old(self).deep_view(), row, s@),
    {
        self.move_to(row, 1);
        self.set_header();
        self.write_truncated(s, self.cols);
        self.reset_attr();
    }
}

/// No text written to a row takes more bytes than the row has columns, and what
/// is cut off is cut off between characters: what is written begins the text.
pub proof fn law_clipped_text_begins_text(s: Seq<char>, max: nat)
    ensures
        byte_prefix(s, max).len() <= s.len(),
        byte_prefix(s, max) == s.subrange(0, byte_prefix(s, max).len() as int),
        crate::compose::width_upto(s, byte_prefix(s, max).len() as int) <= max,
{
    crate::compose::lemma_chars_within(s, max, 0, 0);
}

} // verus!
