//! HTML on a terminal: text with escape sequences for bold, colours and the like.

use vstd::prelude::*;

use crate::joining::{law_parted_widths_add_up, rejoin, rejoined, widths_add_up};
use crate::markup::{filled, is_renderable, prepare, prepared, renderable};
use crate::text::{dec, decimal};

verus! {

/// The type of a mark that `html2text` puts on a piece of text.
#[verifier::external_type_specification]
#[verifier::external_body]
pub struct ExRichAnnotation(html2text::render::RichAnnotation);

/// A mark on a piece of text.
#[derive(Debug)]
pub enum Annotation {
    Default,
    Link(String),
    Image(String),
    Emphasis,
    Strong,
    Strikeout,
    Code,
    Preformat,
    Colour(u8, u8, u8),
    BgColour(u8, u8, u8),
}

/// The contents of an `Annotation`.
pub enum AnnotationV {
    Default,
    Link(Seq<char>),
    Image(Seq<char>),
    Emphasis,
    Strong,
    Strikeout,
    Code,
    Preformat,
    Colour(u8, u8, u8),
    BgColour(u8, u8, u8),
}

impl DeepView for Annotation {
    type V = AnnotationV;

    open spec fn deep_view(&self) -> AnnotationV {
        match self {
            Annotation::Default => AnnotationV::Default,
            Annotation::Link(url) => AnnotationV::Link(url@),
            Annotation::Image(src) => AnnotationV::Image(src@),
            Annotation::Emphasis => AnnotationV::Emphasis,
            Annotation::Strong => AnnotationV::Strong,
            Annotation::Strikeout => AnnotationV::Strikeout,
            Annotation::Code => AnnotationV::Code,
            Annotation::Preformat => AnnotationV::Preformat,
            Annotation::Colour(r, g, b) => AnnotationV::Colour(*r, *g, *b),
            Annotation::BgColour(r, g, b) => AnnotationV::BgColour(*r, *g, *b),
        }
    }
}

/// What a `html2text::render::RichAnnotation` holds.
pub uninterp spec fn annotation_kind(a: html2text::render::RichAnnotation) -> AnnotationV;

/// The variants of `html2text::render::RichAnnotation` with their fields; whether
/// preformatted text continues a line is not kept.
#[verifier::external_body]
fn annotation_of(a: &html2text::render::RichAnnotation) -> (r: Annotation)
    ensures
        r.deep_view() == annotation_kind(*a),
{
    match a {
        html2text::render::RichAnnotation::Link(url) => Annotation::Link(url.clone()),
        html2text::render::RichAnnotation::Image(src) => Annotation::Image(src.clone()),
        html2text::render::RichAnnotation::Emphasis => Annotation::Emphasis,
        html2text::render::RichAnnotation::Strong => Annotation::Strong,
        html2text::render::RichAnnotation::Strikeout => Annotation::Strikeout,
        html2text::render::RichAnnotation::Code => Annotation::Code,
        html2text::render::RichAnnotation::Preformat(_) => Annotation::Preformat,
        html2text::render::RichAnnotation::Colour(c) => Annotation::Colour(c.r, c.g, c.b),
        html2text::render::RichAnnotation::BgColour(c) => Annotation::BgColour(c.r, c.g, c.b),
        _ => Annotation::Default,
    }
}

/// The sequence that sets a colour.
pub open spec fn colour_code(code: Seq<char>, r: u8, g: u8, b: u8) -> Seq<char> {
    "\x1b["@ + code + ";2;"@ + decimal(r as nat) + ";"@ + decimal(g as nat) + ";"@ + decimal(
        b as nat,
    ) + "m"@
}

fn colour_sequence(code: &str, r: u8, g: u8, b: u8) -> (s: String)
    ensures
        s@ == colour_code(code@, r, g, b),
{
    let mut s = "\x1b[".to_owned();
    s.append(code);
    s.append(";2;");
    s.append(dec(r as u64).as_str());
    s.append(";");
    s.append(dec(g as u64).as_str());
    s.append(";");
    s.append(dec(b as u64).as_str());
    s.append("m");
    s
}

/// What stands before a piece of text with a mark.
pub open spec fn before_text(a: AnnotationV) -> Seq<char> {
    match a {
        AnnotationV::Strong => "\x1b[1m"@,
        AnnotationV::Emphasis => "\x1b[3m"@,
        AnnotationV::Strikeout => "\x1b[9m"@,
        AnnotationV::Code => "\x1b[2m"@,
        AnnotationV::Preformat => "\x1b[2m"@,
        AnnotationV::Colour(r, g, b) => colour_code("38"@, r, g, b),
        AnnotationV::BgColour(r, g, b) => colour_code("48"@, r, g, b),
        _ => ""@,
    }
}

/// What stands behind a piece of text with a mark: what ends the style, and where
/// a link goes or an image comes from.
pub open spec fn after_text(a: AnnotationV) -> Seq<char> {
    match a {
        AnnotationV::Strong => "\x1b[22m"@,
        AnnotationV::Emphasis => "\x1b[23m"@,
        AnnotationV::Strikeout => "\x1b[29m"@,
        AnnotationV::Code => "\x1b[22m"@,
        AnnotationV::Preformat => "\x1b[22m"@,
        AnnotationV::Link(url) => " \x1b[2m["@ + url + "]\x1b[22m"@,
        AnnotationV::Image(src) => " \x1b[2m[img: "@ + src + "]\x1b[22m"@,
        AnnotationV::Colour(_, _, _) => "\x1b[39m"@,
        AnnotationV::BgColour(_, _, _) => "\x1b[49m"@,
        AnnotationV::Default => ""@,
    }
}

fn prefix_of(a: &Annotation) -> (s: String)
    ensures
        s@ == before_text(a.deep_view()),
{
    match a {
        Annotation::Strong => "\x1b[1m".to_owned(),
        Annotation::Emphasis => "\x1b[3m".to_owned(),
        Annotation::Strikeout => "\x1b[9m".to_owned(),
        Annotation::Code => "\x1b[2m".to_owned(),
        Annotation::Preformat => "\x1b[2m".to_owned(),
        Annotation::Colour(r, g, b) => colour_sequence("38", *r, *g, *b),
        Annotation::BgColour(r, g, b) => colour_sequence("48", *r, *g, *b),
        _ => "".to_owned(),
    }
}

fn suffix_of(a: &Annotation) -> (s: String)
    ensures
        s@ == after_text(a.deep_view()),
{
    match a {
        Annotation::Strong => "\x1b[22m".to_owned(),
        Annotation::Emphasis => "\x1b[23m".to_owned(),
        Annotation::Strikeout => "\x1b[29m".to_owned(),
        Annotation::Code => "\x1b[22m".to_owned(),
        Annotation::Preformat => "\x1b[22m".to_owned(),
        Annotation::Link(url) => {
            let mut s = " \x1b[2m[".to_owned();
            s.append(url.as_str());
            s.append("]\x1b[22m");
            s
        },
        Annotation::Image(src) => {
            let mut s = " \x1b[2m[img: ".to_owned();
            s.append(src.as_str());
            s.append("]\x1b[22m");
            s
        },
        Annotation::Colour(_, _, _) => "\x1b[39m".to_owned(),
        Annotation::BgColour(_, _, _) => "\x1b[49m".to_owned(),
        Annotation::Default => "".to_owned(),
    }
}

/// What stands before a piece of text with the first `k` marks.
pub open spec fn before_all(marks: Seq<AnnotationV>, k: int) -> Seq<char>
    decreases k,
{
    if k <= 0 {
        Seq::empty()
    } else {
        before_all(marks, k - 1) + before_text(marks[k - 1])
    }
}

/// What stands behind a piece of text with the first `k` marks.
pub open spec fn after_all(marks: Seq<AnnotationV>, k: int) -> Seq<char>
    decreases k,
{
    if k <= 0 {
        Seq::empty()
    } else {
        after_all(marks, k - 1) + after_text(marks[k - 1])
    }
}

/// A piece of text with its marks.
pub open spec fn styled(marks: Seq<AnnotationV>, text: Seq<char>) -> Seq<char> {
    before_all(marks, marks.len() as int) + text + after_all(marks, marks.len() as int)
}

/// A piece of text with its marks.
pub fn style_text(marks: &Vec<Annotation>, text: &str) -> (r: String)
    ensures
        r@ == styled(marks.deep_view(), text@),
{
    let ghost all = marks.deep_view();
    let mut prefix = String::new();
    let mut suffix = String::new();
    let mut i: usize = 0;
    while i < marks.len()
        invariant
            i <= marks@.len(),
            all == marks.deep_view(),
            prefix@ == before_all(all, i as int),
            suffix@ == after_all(all, i as int),
        decreases marks@.len() - i,
    {
        assert(all[i as int] == marks@[i as int].deep_view());
        prefix.append(prefix_of(&marks[i]).as_str());
        suffix.append(suffix_of(&marks[i]).as_str());
        i = i + 1;
    }
    prefix.append(text);
    prefix.append(suffix.as_str());
    prefix
}

/// The marks that `html2text` puts on a piece of text.
pub open spec fn marks_of(annotations: Seq<html2text::render::RichAnnotation>) -> Seq<AnnotationV> {
    annotations.map_values(|a: html2text::render::RichAnnotation| annotation_kind(a))
}

/// A piece of text with the marks that `html2text` puts on it.
pub fn style_span(annotations: &[html2text::render::RichAnnotation], text: &str) -> (r: String)
    ensures
        r@ == styled(marks_of(annotations@), text@),
{
    let ghost all = marks_of(annotations@);
    let mut marks: Vec<Annotation> = Vec::new();
    let mut i: usize = 0;
    while i < annotations.len()
        invariant
            i <= annotations@.len(),
            all == marks_of(annotations@),
            marks.deep_view() == all.take(i as int),
        decreases annotations@.len() - i,
    {
        let a = annotation_of(&annotations[i]);
        let ghost before = marks.deep_view();
        let ghost av = a.deep_view();
        marks.push(a);
        assert(marks.deep_view() =~= before.push(av));
        assert(all.take(i + 1) =~= all.take(i as int).push(all[i as int]));
        i = i + 1;
    }
    assert(all.take(all.len() as int) =~= all);
    style_text(&marks, text)
}

/// The lines that `html2text` renders HTML into at a width, each made of pieces of
/// text with their marks; nothing when it fails.
pub uninterp spec fn html_lines(html: Seq<char>, width: usize) -> Option<
    Seq<Seq<(Seq<AnnotationV>, Seq<char>)>>,
>;

/// The first `k` pieces of a line.
pub open spec fn coloured_line(spans: Seq<(Seq<AnnotationV>, Seq<char>)>, k: int) -> Seq<char>
    decreases k,
{
    if k <= 0 {
        Seq::empty()
    } else {
        coloured_line(spans, k - 1) + styled(spans[k - 1].0, spans[k - 1].1)
    }
}

/// The first `k` lines, each with its end.
pub open spec fn coloured_lines(lines: Seq<Seq<(Seq<AnnotationV>, Seq<char>)>>, k: int) -> Seq<char>
    decreases k,
{
    if k <= 0 {
        Seq::empty()
    } else {
        coloured_lines(lines, k - 1) + coloured_line(lines[k - 1], lines[k - 1].len() as int)
            + "\n"@
    }
}

/// `html2text::from_read_coloured`: renders HTML at a width and puts together, for
/// each line in turn, what the given function makes of the line's pieces of text,
/// and a line end. The lines depend on the HTML and the width alone; the kind of a
/// failure is not kept. Left out is what the crate would not come back from: columns
/// that span too much, lists that start too far off, trees that are too deep,
/// characters whose widths do not add up to that of their text, and preformatted text
/// that can take no room at all.
#[verifier::external_body]
fn render_coloured(html: &str, width: usize) -> (r: Option<String>)
    requires
        renderable(html@),
        widths_add_up(html@),
    ensures
        match html_lines(html@, width) {
            Some(lines) => r.deep_view() == Some(coloured_lines(lines, lines.len() as int)),
            None => r is None,
        },
{
    html2text::from_read_coloured(html.as_bytes(), width, |a, text| style_span(a, text)).ok()
}

/// HTML as it is shown on a terminal; as it is where it cannot be rendered.
pub open spec fn terminal_text(html: Seq<char>) -> Seq<char> {
    if renderable(prepared(html)) {
        match html_lines(prepared(html), 80) {
            Some(lines) => rejoined(coloured_lines(lines, lines.len() as int)),
            None => html,
        }
    } else {
        html
    }
}

/// HTML as it is shown on a terminal; as it is where it cannot be rendered.
pub fn html_to_terminal(html: &str) -> (r: String)
    ensures
        r@ == terminal_text(html@),
{
    let ready = prepare(html);
    if !is_renderable(ready.as_str()) {
        return html.to_owned();
    }
    proof {
        law_parted_widths_add_up(filled(html@));
    }
    match render_coloured(ready.as_str(), 80) {
        Some(t) => rejoin(t.as_str()),
        None => html.to_owned(),
    }
}

} // verus!
