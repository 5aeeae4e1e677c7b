use tmc::config::{Rgb, Theme};
use tmc::tui::html::{html_to_terminal, style_text, Annotation};
use tmc::tui::input::{parse_byte, parse_escape, Key, KeyState, KeyStep};
use tmc::tui::layout::{format_size, pad, truncate, wrap_line};
use tmc::tui::screen::Terminal;

fn plain_theme() -> Theme {
    Theme {
        bg: None,
        fg: None,
        bold_fg: None,
        selection_bg: None,
        selection_fg: None,
        status_bg: None,
        status_fg: None,
        header_fg: None,
    }
}

fn key_of(bytes: &[u8]) -> Key {
    let mut step = parse_byte(bytes[0]);
    let mut rest = bytes[1..].iter();
    loop {
        match step {
            KeyStep::Key(k) => return k,
            KeyStep::More(state) => step = parse_escape(state, rest.next().copied()),
        }
    }
}

#[test]
fn keys_are_read() {
    assert_eq!(key_of(b"a"), Key::Char('a'));
    assert_eq!(key_of(b"\r"), Key::Enter);
    assert_eq!(key_of(b"\x7f"), Key::Backspace);
    assert_eq!(key_of(b"\x1b"), Key::Escape);
    assert_eq!(key_of(b"\x1b\r"), Key::AltEnter);
    assert_eq!(key_of(b"\x1b[A"), Key::Up);
    assert_eq!(key_of(b"\x1b[B"), Key::Down);
    assert_eq!(key_of(b"\x1b[5~"), Key::PageUp);
    assert_eq!(key_of(b"\x1b[6~"), Key::PageDown);
    assert_eq!(key_of(b"\x1b[<0;12;7M"), Key::MouseClick { row: 7, col: 12 });
    assert_eq!(key_of(b"\x1b[<64;1;1M"), Key::ScrollUp);
    assert_eq!(key_of(b"\x1b[<65;1;1M"), Key::ScrollDown);
}

#[test]
fn a_broken_sequence_is_escape() {
    assert_eq!(
        parse_escape(KeyState::Bracket, None),
        KeyStep::Key(Key::Escape)
    );
    assert_eq!(key_of(b"\x1b["), Key::Escape);
}

#[test]
fn sizes_are_rounded() {
    assert_eq!(format_size(1023), "1023 B");
    assert_eq!(format_size(1024), "1.0 KB");
    assert_eq!(format_size(1536), "1.5 KB");
    assert_eq!(format_size(1024 * 1024 - 1), "1024.0 KB");
    assert_eq!(format_size(5 * 1024 * 1024 + 1), "5.0 MB");
    for n in [1075u64, 1126, 1229, 99_999, 1_000_000, 123_456_789, 987_654_321_012] {
        let expected = if n < 1024 * 1024 {
            format!("{:.1} KB", n as f64 / 1024.0)
        } else {
            format!("{:.1} MB", n as f64 / (1024.0 * 1024.0))
        };
        assert_eq!(format_size(n), expected);
    }
}

#[test]
fn lines_are_wrapped_at_spaces() {
    assert_eq!(wrap_line("aa bb cc", 5), vec!["aa", "bb cc"]);
    assert_eq!(wrap_line("abcdefg", 3), vec!["abc", "def", "g"]);
    assert_eq!(wrap_line("", 3), vec![""]);
    assert_eq!(wrap_line("anything", 0), vec!["anything"]);
    for line in wrap_line("the quick brown fox jumps over the lazy dog", 9) {
        assert!(line.chars().count() <= 9);
    }
}

#[test]
fn texts_are_fitted() {
    assert_eq!(truncate("hello", 5), "hello");
    assert_eq!(truncate("hello world", 8), "hello...");
    assert_eq!(truncate("hello", 2), "he");
    assert_eq!(truncate("ééééé", 7), "éé...");
    assert_eq!(pad("ab", 4), "ab  ");
    assert_eq!(pad("abcde", 4), "abcde");
}

#[test]
fn the_screen_is_written_in_sequences() {
    let mut t = Terminal::new(false, plain_theme(), 3, 5);
    let _ = t.flush();
    t.move_to(2, 4);
    t.write_truncated("abcdefg", 3);
    assert_eq!(t.flush(), "\x1b[2;4Habc");
    assert_eq!(t.flush(), "");
    t.write_status("ab");
    assert_eq!(t.flush(), "\x1b[3;1H\x1b[7mab   \x1b[0m");
    t.set_selection();
    t.set_bold_text();
    assert_eq!(t.flush(), "\x1b[7m\x1b[1m");
    t.set_mouse_enabled(true);
    assert_eq!(t.flush(), "");
    t.resize(10, 20);
    assert_eq!((t.rows, t.cols), (10, 20));
}

#[test]
fn colours_come_from_the_theme() {
    let mut theme = plain_theme();
    theme.header_fg = Some(Rgb { r: 1, g: 2, b: 3 });
    theme.bg = Some(Rgb { r: 9, g: 8, b: 7 });
    let mut t = Terminal::new(true, theme, 3, 5);
    let _ = t.flush();
    t.set_header();
    assert_eq!(t.flush(), "\x1b[1m\x1b[38;2;1;2;3m");
    t.reset_attr();
    assert_eq!(t.flush(), "\x1b[0m\x1b[48;2;9;8;7m");
}

#[test]
fn cut_text_begins_the_text() {
    let mut t = Terminal::new(false, plain_theme(), 3, 5);
    let _ = t.flush();
    t.write_truncated("aéb", 2);
    assert_eq!(t.flush(), "a");
}

#[test]
fn marks_become_sequences() {
    assert_eq!(
        style_text(&vec![Annotation::Strong, Annotation::Emphasis], "x"),
        "\x1b[1m\x1b[3mx\x1b[22m\x1b[23m"
    );
    assert_eq!(
        style_text(&vec![Annotation::Link("http://a".to_string())], "x"),
        "x \x1b[2m[http://a]\x1b[22m"
    );
    assert_eq!(
        style_text(&vec![Annotation::Image("s.png".to_string())], "x"),
        "x \x1b[2m[img: s.png]\x1b[22m"
    );
    assert_eq!(
        style_text(&vec![Annotation::Colour(1, 2, 3)], "x"),
        "\x1b[38;2;1;2;3mx\x1b[39m"
    );
    assert_eq!(
        style_text(&vec![Annotation::BgColour(1, 2, 3)], "x"),
        "\x1b[48;2;1;2;3mx\x1b[49m"
    );
    assert_eq!(style_text(&vec![Annotation::Strikeout], "x"), "\x1b[9mx\x1b[29m");
    assert_eq!(style_text(&vec![Annotation::Code], "x"), "\x1b[2mx\x1b[22m");
    assert_eq!(style_text(&vec![Annotation::Default], "x"), "x");
}

#[test]
fn html_is_styled() {
    assert_eq!(html_to_terminal("<p>plain</p>"), "plain\n");
    assert_eq!(
        html_to_terminal("<p>a <strong>bold</strong> word</p>"),
        "a \x1b[1mbold\x1b[22m word\n"
    );
    let link = html_to_terminal("<a href=\"http://a.example\">here</a>");
    assert!(link.contains("here"));
    assert!(link.contains("[http://a.example]"));
}
