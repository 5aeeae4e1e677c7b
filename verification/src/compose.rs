//! Drafts: new messages, replies and forwarded messages.

use vstd::prelude::*;

use crate::data::{at, lookup, no_items, put};
use crate::jmap::types::{
    shown_address, BodyPart, BodyPartV, Email, EmailAddress, EmailAddressV, EmailV,
};
use crate::joining::{law_parted_widths_add_up, rejoin, rejoined, widths_add_up};
use crate::markup::{filled, is_renderable, prepare, prepared, renderable};
use crate::rules::{join_addresses, shown_addresses};
use crate::text::{
    ascii_lower, begins, contains, eq_ignore_ascii_case, find, find_chars, has, join, joined, lines,
    lines_of, list_contains, lowercase, rfind, rfind_chars, same, slice_text, starts_with,
    to_ascii_lowercase, to_chars, to_lowercase, trim, trimmed,
};

verus! {

broadcast use vstd::seq_lib::group_seq_properties;

// ---------------------------------------------------------------------------
// New messages
// ---------------------------------------------------------------------------

/// The draft of a new message.
pub open spec fn compose_draft(from: Seq<char>) -> Seq<char> {
    "From: "@ + from + "\nTo: \nCc: \nSubject: \n--text follows this line--\n\n"@
}

/// The draft of a new message.
pub fn build_compose_draft(from: &str) -> (r: String)
    ensures
        r@ == compose_draft(from@),
{
    let mut s = "From: ".to_owned();
    s.append(from);
    s.append("\nTo: \nCc: \nSubject: \n--text follows this line--\n\n");
    s
}

// ---------------------------------------------------------------------------
// Body text
// ---------------------------------------------------------------------------

/// The number of bytes that a character takes.
pub open spec fn utf8_width(c: char) -> nat {
    if '\u{7f}' >= c {
        1
    } else if '\u{7ff}' >= c {
        2
    } else if '\u{ffff}' >= c {
        3
    } else {
        4
    }
}

/// How many characters of `s`, the first `i` of which take `used` bytes, stand
/// in its first `max` bytes.
pub open spec fn chars_within(s: Seq<char>, max: nat, i: int, used: nat) -> int
    decreases s.len() - i,
{
    if i < 0 || i >= s.len() || used + utf8_width(s[i]) > max {
        i
    } else {
        chars_within(s, max, i + 1, used + utf8_width(s[i]))
    }
}

/// The longest beginning of a text that takes at most `max` bytes.
pub open spec fn byte_prefix(s: Seq<char>, max: nat) -> Seq<char> {
    s.subrange(0, chars_within(s, max, 0, 0))
}

/// The number of bytes that the first `k` characters take.
pub open spec fn width_upto(s: Seq<char>, k: int) -> nat
    decreases k,
{
    if k <= 0 {
        0
    } else {
        width_upto(s, k - 1) + utf8_width(s[k - 1])
    }
}

/// What `chars_within` counts takes at most `max` bytes.
pub proof fn lemma_chars_within(s: Seq<char>, max: nat, i: int, used: nat)
    requires
        0 <= i <= s.len(),
        used == width_upto(s, i),
        used <= max,
    ensures
        i <= chars_within(s, max, i, used) <= s.len(),
        width_upto(s, chars_within(s, max, i, used)) <= max,
    decreases s.len() - i,
{
    if i < s.len() && used + utf8_width(s[i]) <= max {
        lemma_chars_within(s, max, i + 1, used + utf8_width(s[i]));
    }
}

fn width_of(c: char) -> (r: usize)
    ensures
        r == utf8_width(c),
        1 <= r <= 4,
{
    if '\u{7f}' >= c {
        1
    } else if '\u{7ff}' >= c {
        2
    } else if '\u{ffff}' >= c {
        3
    } else {
        4
    }
}

/// The longest beginning of a text that takes at most `max` bytes.
pub fn take_bytes(s: &str, max: usize) -> (r: String)
    ensures
        r@ == byte_prefix(s@, max as nat),
{
    let v = to_chars(s);
    let mut i: usize = 0;
    let mut used: usize = 0;
    while i < v.len()
        invariant
            v@ == s@,
            i <= v@.len(),
            used <= max,
            chars_within(s@, max as nat, 0, 0) == chars_within(
                s@,
                max as nat,
                i as int,
                used as nat,
            ),
        decreases v@.len() - i,
    {
        let w: usize = width_of(v[i]);
        if max - used < w {
            return slice_text(&v, 0, i);
        }
        used = used + w;
        i = i + 1;
    }
    slice_text(&v, 0, i)
}

/// Whether a text looks like HTML: one of the usual tags stands anywhere in it, in
/// whatever case.
pub open spec fn html_like(s: Seq<char>) -> bool {
    let l = ascii_lower(s);
    ||| has(l, "<!doctype"@)
    ||| has(l, "<html"@)
    ||| has(l, "<head"@)
    ||| has(l, "<body"@)
    ||| has(l, "<style"@)
    ||| has(l, "<table"@)
    ||| has(l, "<div"@)
}

/// Whether a text looks like HTML.
pub fn looks_like_html(text: &str) -> (r: bool)
    ensures
        r == html_like(text@),
{
    let lower = to_ascii_lowercase(text);
    contains(lower.as_str(), "<!doctype") || contains(lower.as_str(), "<html") || contains(
        lower.as_str(),
        "<head",
    ) || contains(lower.as_str(), "<body") || contains(lower.as_str(), "<style") || contains(
        lower.as_str(),
        "<table",
    ) || contains(lower.as_str(), "<div")
}

/// What `html2text::from_read` makes of HTML at a line width: a text, or nothing
/// when it fails.
pub uninterp spec fn html_rendered(html: Seq<char>, width: usize) -> Option<Seq<char>>;

/// `html2text::from_read`: renders HTML as plain text wrapped at a width. What
/// comes out depends on the HTML and the width alone; the kind of a failure is
/// not kept. Left out is what the crate would not come back from: columns that span
/// too much, lists that start too far off, trees that are too deep, characters whose
/// widths do not add up to that of their text, and preformatted text that can take
/// no room at all.
#[verifier::external_body]
fn render_html(html: &str, width: usize) -> (r: Option<String>)
    requires
        renderable(html@),
        widths_add_up(html@),
    ensures
        r.deep_view() == html_rendered(html@, width),
{
    html2text::from_read(html.as_bytes(), width).ok()
}

/// HTML as plain text; as it is where it cannot be rendered.
pub open spec fn plain_text(html: Seq<char>) -> Seq<char> {
    if renderable(prepared(html)) {
        match html_rendered(prepared(html), 80) {
            Some(t) => rejoined(t),
            None => html,
        }
    } else {
        html
    }
}

/// HTML as plain text; as it is where it cannot be rendered.
pub fn html_to_plain(html: &str) -> (r: String)
    ensures
        r@ == plain_text(html@),
{
    let ready = prepare(html);
    if !is_renderable(ready.as_str()) {
        return html.to_owned();
    }
    proof {
        law_parted_widths_add_up(filled(html@));
    }
    match render_html(ready.as_str(), 80) {
        Some(t) => rejoin(t.as_str()),
        None => html.to_owned(),
    }
}

/// The first part at or after `i` whose text the message holds, or the number of
/// parts.
pub open spec fn valued_part(parts: Seq<BodyPartV>, e: EmailV, i: int) -> int
    decreases parts.len() - i,
{
    if i >= parts.len() {
        parts.len() as int
    } else if lookup(e.body_values, parts[i].part_id) is Some {
        i
    } else {
        valued_part(parts, e, i + 1)
    }
}

/// The part whose text stands for the body, with that text.
pub open spec fn body_source(parts: Option<Seq<BodyPartV>>, e: EmailV) -> Option<
    (BodyPartV, Seq<char>),
> {
    match parts {
        Some(ps) => {
            let i = valued_part(ps, e, 0);
            if i < ps.len() {
                Some((ps[i], lookup(e.body_values, ps[i].part_id)->0.value))
            } else {
                None
            }
        },
        None => None,
    }
}

/// Whether a part says that it is HTML.
pub open spec fn typed_html(p: BodyPartV) -> bool {
    match p.content_type {
        Some(t) => ascii_lower(t) == ascii_lower("text/html"@),
        None => false,
    }
}

/// The text of a message: its plain text, else its HTML as plain text, else its
/// preview.
pub open spec fn body_text(e: EmailV) -> Seq<char> {
    match body_source(e.text_body, e) {
        Some((part, value)) => if html_like(value) || typed_html(part) {
            plain_text(value)
        } else {
            value
        },
        None => match body_source(e.html_body, e) {
            Some((_, value)) => plain_text(value),
            None => match e.preview {
                Some(p) => p,
                None => "(no body)"@,
            },
        },
    }
}

/// The part whose text stands for the body, with that text.
pub fn find_body<'a>(parts: &'a Option<Vec<BodyPart>>, email: &'a Email) -> (r: Option<
    (&'a BodyPart, &'a String),
>)
    ensures
        match r {
            Some((p, s)) => body_source(parts.deep_view(), email.deep_view()) == Some(
                (p.deep_view(), s@),
            ),
            None => body_source(parts.deep_view(), email.deep_view()) is None,
        },
{
    match parts {
        Some(ps) => {
            let mut i: usize = 0;
            while i < ps.len()
                invariant
                    parts.deep_view() == Some(ps.deep_view()),
                    i <= ps@.len(),
                    valued_part(ps.deep_view(), email.deep_view(), 0) == valued_part(
                        ps.deep_view(),
                        email.deep_view(),
                        i as int,
                    ),
                decreases ps@.len() - i,
            {
                let p = at(ps.as_slice(), i);
                match email.body_values.get(p.part_id.as_str()) {
                    Some(v) => {
                        return Some((p, &v.value));
                    },
                    None => {},
                }
                i = i + 1;
            }
            None
        },
        None => None,
    }
}

/// Whether a part says that it is HTML.
pub fn is_html_part(p: &BodyPart) -> (r: bool)
    ensures
        r == typed_html(p.deep_view()),
{
    match &p.content_type {
        Some(t) => eq_ignore_ascii_case(t.as_str(), "text/html"),
        None => false,
    }
}

/// The text of a message: its plain text, else its HTML as plain text, else its
/// preview.
pub fn extract_body_text(email: &Email) -> (r: String)
    ensures
        r@ == body_text(email.deep_view()),
{
    match find_body(&email.text_body, email) {
        Some((part, value)) => {
            if looks_like_html(value.as_str()) || is_html_part(part) {
                html_to_plain(value.as_str())
            } else {
                value.clone()
            }
        },
        None => match find_body(&email.html_body, email) {
            Some((_, value)) => html_to_plain(value.as_str()),
            None => match &email.preview {
                Some(p) => p.clone(),
                None => "(no body)".to_owned(),
            },
        },
    }
}

// ---------------------------------------------------------------------------
// Addresses and ids
// ---------------------------------------------------------------------------

/// The address in a `From` header: what stands between angle brackets, else the
/// whole header if it holds an at sign.
pub open spec fn address_in(header: Seq<char>) -> Option<Seq<char>> {
    let whole = trimmed(header);
    let bare = if whole.contains('@') {
        Some(whole)
    } else {
        None
    };
    match (find(header, seq!['<']), rfind(header, seq!['>'])) {
        (Some(start), Some(end)) => if end > start + 1 && trimmed(
            header.subrange(start + 1, end),
        ).len() > 0 {
            Some(trimmed(header.subrange(start + 1, end)))
        } else {
            bare
        },
        _ => bare,
    }
}

fn has_char(v: &Vec<char>, c: char) -> (r: bool)
    ensures
        r == v@.contains(c),
{
    let mut i: usize = 0;
    while i < v.len()
        invariant
            i <= v@.len(),
            forall|j: int| 0 <= j < i ==> v@[j] != c,
        decreases v@.len() - i,
    {
        if v[i] == c {
            assert(v@.contains(v@[i as int]));
            return true;
        }
        i = i + 1;
    }
    false
}

/// The address in a `From` header.
pub fn extract_email_addr(from_header: &str) -> (r: Option<String>)
    ensures
        r.deep_view() == address_in(from_header@),
{
    let v = to_chars(from_header);
    let mut open: Vec<char> = Vec::new();
    open.push('<');
    let mut close: Vec<char> = Vec::new();
    close.push('>');
    assert(open@ =~= seq!['<']);
    assert(close@ =~= seq!['>']);
    let n: usize = v.len();
    match (find_chars(&v, &open, 0), rfind_chars(&v, &close)) {
        (Some(start), Some(end)) => {
            assert(start < n);
            if end > start + 1 {
                let addr = trim(slice_text(&v, start + 1, end).as_str());
                if !addr.as_str().is_empty() {
                    return Some(addr);
                }
            }
        },
        _ => {},
    }
    let whole = trim(from_header);
    let w = to_chars(whole.as_str());
    if has_char(&w, '@') {
        Some(whole)
    } else {
        None
    }
}

/// Whether a character is an angle bracket.
pub open spec fn angle(c: char) -> bool {
    c == '<' || c == '>'
}

/// The text without the angle brackets at its start.
pub open spec fn bare_start(s: Seq<char>) -> Seq<char>
    decreases s.len(),
{
    if s.len() > 0 && angle(s[0]) {
        bare_start(s.subrange(1, s.len() as int))
    } else {
        s
    }
}

/// The text without the angle brackets at its end.
pub open spec fn bare_end(s: Seq<char>) -> Seq<char>
    decreases s.len(),
{
    if s.len() > 0 && angle(s.last()) {
        bare_end(s.drop_last())
    } else {
        s
    }
}

/// A message id in exactly one pair of angle brackets.
pub open spec fn bracketed(id: Seq<char>) -> Seq<char> {
    "<"@ + bare_end(bare_start(id)) + ">"@
}

/// A message id in exactly one pair of angle brackets.
pub fn bracket(id: &str) -> (r: String)
    ensures
        r@ == bracketed(id@),
{
    let v = to_chars(id);
    let mut from: usize = 0;
    assert(v@.subrange(0, v@.len() as int) =~= id@);
    while from < v.len() && (v[from] == '<' || v[from] == '>')
        invariant
            from <= v@.len(),
            bare_start(v@.subrange(from as int, v@.len() as int)) == bare_start(id@),
        decreases v@.len() - from,
    {
        assert(v@.subrange(from as int, v@.len() as int).subrange(1, v@.len() - from)
            =~= v@.subrange(from + 1, v@.len() as int));
        from = from + 1;
    }
    let mut to: usize = v.len();
    while to > from && (v[to - 1] == '<' || v[to - 1] == '>')
        invariant
            from <= to <= v@.len(),
            bare_end(v@.subrange(from as int, to as int)) == bare_end(bare_start(id@)),
        decreases to - from,
    {
        assert(v@.subrange(from as int, to as int).drop_last() =~= v@.subrange(
            from as int,
            to - 1,
        ));
        to = to - 1;
    }
    let mut s = "<".to_owned();
    s.append(slice_text(&v, from, to).as_str());
    s.append(">");
    s
}

// ---------------------------------------------------------------------------
// Replies
// ---------------------------------------------------------------------------

/// Where a reply goes: to the reply address, else to the sender.
pub open spec fn reply_target(e: EmailV) -> Seq<char> {
    match (e.reply_to, e.from) {
        (Some(list), _) => shown_addresses(list),
        (None, Some(list)) => shown_addresses(list),
        (None, None) => Seq::empty(),
    }
}

/// Whether an address gets a copy of a reply to all: it has an address, which is
/// not the sender's own.
pub open spec fn gets_copy(a: EmailAddressV, me: Option<Seq<char>>) -> bool {
    match a.email {
        Some(addr) => match me {
            Some(m) => lowercase(addr) != m,
            None => true,
        },
        None => false,
    }
}

/// `acc` with those of the first `k` addresses that get a copy.
pub open spec fn copies_upto(
    list: Seq<EmailAddressV>,
    me: Option<Seq<char>>,
    acc: Seq<Seq<char>>,
    k: int,
) -> Seq<Seq<char>>
    decreases k,
{
    if k <= 0 {
        acc
    } else if gets_copy(list[k - 1], me) {
        copies_upto(list, me, acc, k - 1).push(shown_address(list[k - 1]))
    } else {
        copies_upto(list, me, acc, k - 1)
    }
}

/// `acc` with those of an optional list of addresses that get a copy.
pub open spec fn copies(
    list: Option<Seq<EmailAddressV>>,
    me: Option<Seq<char>>,
    acc: Seq<Seq<char>>,
) -> Seq<Seq<char>> {
    match list {
        Some(l) => copies_upto(l, me, acc, l.len() as int),
        None => acc,
    }
}

/// The user's own address as it is compared with others.
pub open spec fn own_address(from: Seq<char>) -> Option<Seq<char>> {
    match address_in(from) {
        Some(a) => Some(lowercase(a)),
        None => None,
    }
}

/// Who gets a copy of a reply.
pub open spec fn reply_copies(e: EmailV, reply_all: bool, from: Seq<char>) -> Seq<char> {
    if reply_all {
        let me = own_address(from);
        joined(copies(e.cc, me, copies(e.to, me, Seq::empty())), ", "@)
    } else {
        Seq::empty()
    }
}

fn add_copies(list: &Option<Vec<EmailAddress>>, me: &Option<String>, acc: &mut Vec<String>)
    ensures
        final(acc).deep_view() == copies(
            list.deep_view(),
            me.deep_view(),
            old(acc).deep_view(),
        ),
{
    let ghost start = acc.deep_view();
    match list {
        Some(l) => {
            let mut i: usize = 0;
            while i < l.len()
                invariant
                    i <= l@.len(),
                    acc.deep_view() == copies_upto(
                        l.deep_view(),
                        me.deep_view(),
                        start,
                        i as int,
                    ),
                decreases l@.len() - i,
            {
                let a = at(l.as_slice(), i);
                match &a.email {
                    Some(addr) => {
                        let keep = match me {
                            Some(m) => {
                                let low = to_lowercase(addr.as_str());
                                !same(low.as_str(), m.as_str())
                            },
                            None => true,
                        };
                        if keep {
                            put(acc, a.to_string());
                        }
                    },
                    None => {},
                }
                i = i + 1;
            }
        },
        None => {},
    }
}

/// Who gets a copy of a reply.
fn copy_line(email: &Email, reply_all: bool, from: &str) -> (r: String)
    ensures
        r@ == reply_copies(email.deep_view(), reply_all, from@),
{
    if !reply_all {
        return String::new();
    }
    let me = match extract_email_addr(from) {
        Some(a) => Some(to_lowercase(a.as_str())),
        None => None,
    };
    let mut acc: Vec<String> = no_items();
    add_copies(&email.to, &me, &mut acc);
    add_copies(&email.cc, &me, &mut acc);
    join(&acc, ", ")
}

/// A subject with a prefix, which is not repeated if the subject has it.
pub open spec fn prefixed_subject(
    subject: Option<Seq<char>>,
    prefix: Seq<char>,
    small: Seq<char>,
) -> Seq<char> {
    match subject {
        Some(s) => if begins(s, prefix) || begins(s, small) {
            s
        } else {
            prefix + s
        },
        None => prefix,
    }
}

fn prefix_subject(subject: &Option<String>, prefix: &str, small: &str) -> (r: String)
    ensures
        r@ == prefixed_subject(subject.deep_view(), prefix@, small@),
{
    match subject {
        Some(s) => {
            if starts_with(s.as_str(), prefix) || starts_with(s.as_str(), small) {
                s.clone()
            } else {
                let mut p = prefix.to_owned();
                p.append(s.as_str());
                p
            }
        },
        None => prefix.to_owned(),
    }
}

/// The id of the message that is answered.
pub open spec fn answered_id(e: EmailV) -> Option<Seq<char>> {
    match e.message_id {
        Some(ids) => if ids.len() > 0 {
            Some(bracketed(ids[0]))
        } else {
            None
        },
        None => None,
    }
}

/// The ids of the thread so far: those that the message names, and its own at the
/// end unless it is among them.
pub open spec fn thread_ids(e: EmailV) -> Seq<Seq<char>> {
    let refs = match e.references {
        Some(rs) => rs.map_values(|r: Seq<char>| bracketed(r)),
        None => Seq::empty(),
    };
    match answered_id(e) {
        Some(id) => if refs.contains(id) {
            refs
        } else {
            refs.push(id)
        },
        None => refs,
    }
}

fn first_id(email: &Email) -> (r: Option<String>)
    ensures
        r.deep_view() == answered_id(email.deep_view()),
{
    match &email.message_id {
        Some(ids) => {
            if ids.len() > 0 {
                Some(bracket(at(ids.as_slice(), 0).as_str()))
            } else {
                None
            }
        },
        None => None,
    }
}

fn collect_ids(email: &Email) -> (r: Vec<String>)
    ensures
        r.deep_view() == thread_ids(email.deep_view()),
{
    let mut refs: Vec<String> = no_items();
    match &email.references {
        Some(rs) => {
            let ghost rv = rs.deep_view();
            let mut i: usize = 0;
            while i < rs.len()
                invariant
                    i <= rs@.len(),
                    rv == rs.deep_view(),
                    refs.deep_view().len() == i,
                    forall|j: int| 0 <= j < i ==> #[trigger] refs.deep_view()[j] == bracketed(rv[j]),
                decreases rs@.len() - i,
            {
                put(&mut refs, bracket(at(rs.as_slice(), i).as_str()));
                i = i + 1;
            }
            assert(refs.deep_view() =~= rv.map_values(|r: Seq<char>| bracketed(r)));
        },
        None => {},
    }
    match first_id(email) {
        Some(id) => {
            if !list_contains(&refs, id.as_str()) {
                put(&mut refs, id);
            }
        },
        None => {},
    }
    refs
}

/// When a message was sent, or else received.
pub open spec fn message_date(e: EmailV) -> Seq<char> {
    match (e.sent_at, e.received_at) {
        (Some(d), _) => d,
        (None, Some(d)) => d,
        (None, None) => "(unknown date)"@,
    }
}

fn date_of(email: &Email) -> (r: String)
    ensures
        r@ == message_date(email.deep_view()),
{
    match &email.sent_at {
        Some(d) => d.clone(),
        None => match &email.received_at {
            Some(d) => d.clone(),
            None => "(unknown date)".to_owned(),
        },
    }
}

/// The first sender.
pub open spec fn sender(e: EmailV) -> Seq<char> {
    match e.from {
        Some(list) => if list.len() > 0 {
            shown_address(list[0])
        } else {
            "(unknown)"@
        },
        None => "(unknown)"@,
    }
}

/// The first sender.
pub fn sender_of(email: &Email) -> (r: String)
    ensures
        r@ == sender(email.deep_view()),
{
    match &email.from {
        Some(list) => {
            if list.len() > 0 {
                at(list.as_slice(), 0).to_string()
            } else {
                "(unknown)".to_owned()
            }
        },
        None => "(unknown)".to_owned(),
    }
}

/// A text with a quote mark before each line.
pub open spec fn quoted(s: Seq<char>) -> Seq<char> {
    joined(lines_of(s).map_values(|l: Seq<char>| "> "@ + l), "\n"@)
}

fn quote_lines(s: &str) -> (r: String)
    ensures
        r@ == quoted(s@),
{
    let ls = lines(s);
    let ghost lv = ls.deep_view();
    let mut out: Vec<String> = no_items();
    let mut i: usize = 0;
    while i < ls.len()
        invariant
            i <= ls@.len(),
            lv == ls.deep_view(),
            out.deep_view().len() == i,
            forall|j: int| 0 <= j < i ==> #[trigger] out.deep_view()[j] == "> "@ + lv[j],
        decreases ls@.len() - i,
    {
        let mut q = "> ".to_owned();
        q.append(at(ls.as_slice(), i).as_str());
        put(&mut out, q);
        i = i + 1;
    }
    assert(out.deep_view() =~= lines_of(s@).map_values(|l: Seq<char>| "> "@ + l));
    join(&out, "\n")
}

/// A header line; nothing if its value is empty.
pub open spec fn optional_header(name: Seq<char>, value: Seq<char>) -> Seq<char> {
    if value.len() == 0 {
        Seq::empty()
    } else {
        name + value + "\n"@
    }
}

/// The draft of a reply.
pub open spec fn reply_draft(e: EmailV, reply_all: bool, from: Seq<char>) -> Seq<char> {
    "From: "@ + from + "\nTo: "@ + reply_target(e) + "\n"@ + optional_header(
        "Cc: "@,
        reply_copies(e, reply_all, from),
    ) + "Subject: "@ + prefixed_subject(e.subject, "Re: "@, "re: "@) + "\n"@ + (match answered_id(
        e,
    ) {
        Some(id) => "In-Reply-To: "@ + id + "\n"@,
        None => Seq::empty(),
    }) + (if thread_ids(e).len() > 0 {
        "References: "@ + joined(thread_ids(e), " "@) + "\n"@
    } else {
        Seq::empty()
    }) + "--text follows this line--\n"@ + "\nOn "@ + message_date(e) + ", "@ + sender(e)
        + " wrote:\n"@ + quoted(body_text(e)) + "\n"@
}

fn header_line(name: &str, value: &str) -> (r: String)
    ensures
        r@ == name@ + value@ + "\n"@,
{
    let mut s = name.to_owned();
    s.append(value);
    s.append("\n");
    s
}

/// The draft of a reply.
pub fn build_reply_draft(email: &Email, reply_all: bool, from: &str) -> (r: String)
    ensures
        r@ == reply_draft(email.deep_view(), reply_all, from@),
{
    let to = match &email.reply_to {
        Some(list) => join_addresses(list),
        None => match &email.from {
            Some(list) => join_addresses(list),
            None => String::new(),
        },
    };
    let cc = copy_line(email, reply_all, from);
    let cc_header = if cc.as_str().is_empty() {
        String::new()
    } else {
        header_line("Cc: ", cc.as_str())
    };
    let irt_header = match first_id(email) {
        Some(id) => header_line("In-Reply-To: ", id.as_str()),
        None => String::new(),
    };
    let refs = collect_ids(email);
    let refs_header = if refs.len() > 0 {
        header_line("References: ", join(&refs, " ").as_str())
    } else {
        String::new()
    };
    let mut draft = "From: ".to_owned();
    draft.append(from);
    draft.append("\nTo: ");
    draft.append(to.as_str());
    draft.append("\n");
    draft.append(cc_header.as_str());
    draft.append("Subject: ");
    draft.append(prefix_subject(&email.subject, "Re: ", "re: ").as_str());
    draft.append("\n");
    draft.append(irt_header.as_str());
    draft.append(refs_header.as_str());
    draft.append("--text follows this line--\n");
    draft.append("\nOn ");
    draft.append(date_of(email).as_str());
    draft.append(", ");
    draft.append(sender_of(email).as_str());
    draft.append(" wrote:\n");
    draft.append(quote_lines(extract_body_text(email).as_str()).as_str());
    draft.append("\n");
    draft
}

// ---------------------------------------------------------------------------
// Forwarded messages
// ---------------------------------------------------------------------------

/// An optional list of addresses as a text, with another text where it is
/// missing.
pub open spec fn addresses_or(list: Option<Seq<EmailAddressV>>, other: Seq<char>) -> Seq<char> {
    match list {
        Some(l) => shown_addresses(l),
        None => other,
    }
}

fn addresses_or_text(list: &Option<Vec<EmailAddress>>, other: &str) -> (r: String)
    ensures
        r@ == addresses_or(list.deep_view(), other@),
{
    match list {
        Some(l) => join_addresses(l),
        None => other.to_owned(),
    }
}

/// The draft of a forwarded message.
pub open spec fn forward_draft(e: EmailV, from: Seq<char>) -> Seq<char> {
    "From: "@ + from + "\nTo: \nSubject: "@ + prefixed_subject(e.subject, "Fwd: "@, "fwd: "@)
        + "\n"@ + "--text follows this line--\n"@ + "\n---------- Forwarded message ----------\n"@
        + "From: "@ + addresses_or(e.from, "(unknown)"@) + "\nDate: "@ + message_date(e)
        + "\nSubject: "@ + (match e.subject {
        Some(s) => s,
        None => "(no subject)"@,
    }) + "\nTo: "@ + addresses_or(e.to, Seq::empty()) + "\n"@ + optional_header(
        "Cc: "@,
        addresses_or(e.cc, Seq::empty()),
    ) + "\n"@ + body_text(e) + "\n"@
}

/// The draft of a forwarded message.
pub fn build_forward_draft(email: &Email, from: &str) -> (r: String)
    ensures
        r@ == forward_draft(email.deep_view(), from@),
{
    proof {
        reveal_strlit("");
        assert(""@ =~= Seq::<char>::empty());
    }
    let cc = addresses_or_text(&email.cc, "");
    let cc_header = if cc.as_str().is_empty() {
        String::new()
    } else {
        header_line("Cc: ", cc.as_str())
    };
    let orig_subject = match &email.subject {
        Some(s) => s.clone(),
        None => "(no subject)".to_owned(),
    };
    let mut draft = "From: ".to_owned();
    draft.append(from);
    draft.append("\nTo: \nSubject: ");
    draft.append(prefix_subject(&email.subject, "Fwd: ", "fwd: ").as_str());
    draft.append("\n");
    draft.append("--text follows this line--\n");
    draft.append("\n---------- Forwarded message ----------\n");
    draft.append("From: ");
    draft.append(addresses_or_text(&email.from, "(unknown)").as_str());
    draft.append("\nDate: ");
    draft.append(date_of(email).as_str());
    draft.append("\nSubject: ");
    draft.append(orig_subject.as_str());
    draft.append("\nTo: ");
    draft.append(addresses_or_text(&email.to, "").as_str());
    draft.append("\n");
    draft.append(cc_header.as_str());
    draft.append("\n");
    draft.append(extract_body_text(email).as_str());
    draft.append("\n");
    draft
}

// ---------------------------------------------------------------------------
// Where drafts are kept
// ---------------------------------------------------------------------------

/// A path with a relative part behind it.
pub open spec fn path_join(base: Seq<char>, part: Seq<char>) -> Seq<char> {
    if base.len() == 0 {
        part
    } else if base.last() == '/' {
        base + part
    } else {
        base + "/"@ + part
    }
}

/// A path with a relative part behind it.
pub fn join_path(base: &str, part: &str) -> (r: String)
    ensures
        r@ == path_join(base@, part@),
{
    let v = to_chars(base);
    if v.len() == 0 {
        return part.to_owned();
    }
    let mut s = base.to_owned();
    if v[v.len() - 1] != '/' {
        s.append("/");
    }
    s.append(part);
    s
}

/// The directory for drafts: below the runtime directory, else below the state
/// directory.
pub open spec fn drafts_path(
    runtime: Option<Seq<char>>,
    state: Option<Seq<char>>,
    home: Option<Seq<char>>,
) -> Seq<char> {
    let base = if runtime is Some && trimmed(runtime->0).len() > 0 {
        trimmed(runtime->0)
    } else {
        match (state, home) {
            (Some(s), _) => s,
            (None, Some(h)) => path_join(path_join(h, ".local"@), "state"@),
            (None, None) => "."@,
        }
    };
    path_join(path_join(base, "tmc"@), "drafts"@)
}

/// The directory for drafts: below the runtime directory, else below the state
/// directory.
pub fn draft_dir_from_env(
    xdg_runtime_dir: Option<String>,
    xdg_state_home: Option<String>,
    home: Option<String>,
) -> (r: String)
    ensures
        r@ == drafts_path(
            xdg_runtime_dir.deep_view(),
            xdg_state_home.deep_view(),
            home.deep_view(),
        ),
{
    match &xdg_runtime_dir {
        Some(dir) => {
            let t = trim(dir.as_str());
            if !t.as_str().is_empty() {
                return join_path(join_path(t.as_str(), "tmc").as_str(), "drafts");
            }
        },
        None => {},
    }
    let state = match xdg_state_home {
        Some(s) => s,
        None => match home {
            Some(h) => join_path(join_path(h.as_str(), ".local").as_str(), "state"),
            None => ".".to_owned(),
        },
    };
    join_path(join_path(state.as_str(), "tmc").as_str(), "drafts")
}

// ---------------------------------------------------------------------------
// What holds of every draft
// ---------------------------------------------------------------------------

/// A subject gets its prefix once, however often it is replied to or forwarded.
pub proof fn law_subject_prefix_once(
    subject: Option<Seq<char>>,
    prefix: Seq<char>,
    small: Seq<char>,
)
    ensures
        ({
            let once = prefixed_subject(subject, prefix, small);
            prefixed_subject(Some(once), prefix, small) == once
        }),
{
    let once = prefixed_subject(subject, prefix, small);
    match subject {
        Some(s) => {
            if !begins(s, prefix) && !begins(s, small) {
                assert((prefix + s).subrange(0, prefix.len() as int) =~= prefix);
            }
        },
        None => {
            assert(prefix.subrange(0, prefix.len() as int) =~= prefix);
        },
    }
}

proof fn lemma_copies_exclude(
    list: Seq<EmailAddressV>,
    me: Option<Seq<char>>,
    acc: Seq<Seq<char>>,
    k: int,
    s: Seq<char>,
)
    requires
        0 <= k <= list.len(),
        copies_upto(list, me, acc, k).contains(s),
    ensures
        acc.contains(s) || exists|i: int|
            0 <= i < k && #[trigger] gets_copy(list[i], me) && shown_address(list[i]) == s,
    decreases k,
{
    if k > 0 {
        if gets_copy(list[k - 1], me) {
            let before = copies_upto(list, me, acc, k - 1);
            if shown_address(list[k - 1]) != s {
                let after = before.push(shown_address(list[k - 1]));
                let j = choose|j: int| 0 <= j < after.len() && after[j] == s;
                assert(before[j] == s);
                lemma_copies_exclude(list, me, acc, k - 1, s);
            }
        } else {
            lemma_copies_exclude(list, me, acc, k - 1, s);
        }
    }
}

/// A reply to all sends a copy only to recipients of the message whose address is
/// not the sender's own.
pub proof fn law_reply_all_leaves_out_self(
    to: Seq<EmailAddressV>,
    cc: Seq<EmailAddressV>,
    me: Seq<char>,
    s: Seq<char>,
)
    requires
        copies(Some(cc), Some(me), copies(Some(to), Some(me), Seq::empty())).contains(s),
    ensures
        exists|a: EmailAddressV|
            (to.contains(a) || cc.contains(a)) && shown_address(a) == s
                && #[trigger] gets_copy(a, Some(me)),
{
    let first = copies_upto(to, Some(me), Seq::empty(), to.len() as int);
    lemma_copies_exclude(cc, Some(me), first, cc.len() as int, s);
    if first.contains(s) {
        lemma_copies_exclude(to, Some(me), Seq::empty(), to.len() as int, s);
        let i = choose|i: int|
            0 <= i < to.len() && #[trigger] gets_copy(to[i], Some(me)) && shown_address(to[i]) == s;
        assert(to.contains(to[i]));
    } else {
        let i = choose|i: int|
            0 <= i < cc.len() && #[trigger] gets_copy(cc[i], Some(me)) && shown_address(cc[i]) == s;
        assert(cc.contains(cc[i]));
    }
}

} // verus!
