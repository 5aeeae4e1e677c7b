//! Text primitives: searching, splitting, trimming, case and decimal numbers.
//!
//! The specifications speak of texts as sequences of characters.

use vstd::prelude::*;
use vstd::string::*;
use vstd::utf8::*;

verus! {

broadcast use vstd::seq_lib::group_seq_properties;

/// `String::push` appends one character to the end of the text.
pub assume_specification[ String::push ](s: &mut String, c: char)
    ensures
        final(s)@ == old(s)@.push(c),
;

// ---------------------------------------------------------------------------
// Conversions and equality
// ---------------------------------------------------------------------------

/// The characters of a text.
pub fn to_chars(s: &str) -> (v: Vec<char>)
    ensures
        v@ == s@,
{
    let mut v: Vec<char> = Vec::new();
    for c in it: s.chars()
        invariant
            it.seq() == s@,
            v@ == s@.subrange(0, it.index() as int),
    {
        proof {
            assert(s@.subrange(0, it.index() as int).push(c) =~= s@.subrange(0, it.index() + 1));
        }
        v.push(c);
    }
    assert(s@.subrange(0, s@.len() as int) =~= s@);
    v
}

/// The text between two character positions.
pub fn slice_text(v: &Vec<char>, from: usize, to: usize) -> (s: String)
    requires
        from <= to <= v@.len(),
    ensures
        s@ == v@.subrange(from as int, to as int),
{
    let mut s = String::new();
    let mut i: usize = from;
    assert(s@ =~= v@.subrange(from as int, from as int));
    while i < to
        invariant
            from <= i <= to <= v@.len(),
            s@ == v@.subrange(from as int, i as int),
        decreases to - i,
    {
        assert(v@.subrange(from as int, i as int).push(v@[i as int]) =~= v@.subrange(
            from as int,
            i + 1,
        ));
        s.push(v[i]);
        i = i + 1;
    }
    s
}

/// Texts are equal exactly when their encodings are.
pub proof fn lemma_bytes_determine_text(a: Seq<char>, b: Seq<char>)
    requires
        encode_utf8(a) == encode_utf8(b),
    ensures
        a == b,
{
    encode_utf8_decode_utf8(a);
    encode_utf8_decode_utf8(b);
}

/// Says whether two texts are the same.
pub fn same(a: &str, b: &str) -> (r: bool)
    ensures
        r == (a@ == b@),
{
    let x = a.as_bytes();
    let y = b.as_bytes();
    if x.len() != y.len() {
        return false;
    }
    let mut i: usize = 0;
    while i < x.len()
        invariant
            x@ == encode_utf8(a@),
            y@ == encode_utf8(b@),
            x@.len() == y@.len(),
            i <= x@.len(),
            forall|j: int| 0 <= j < i ==> x@[j] == y@[j],
        decreases x@.len() - i,
    {
        if x[i] != y[i] {
            return false;
        }
        i = i + 1;
    }
    proof {
        assert(x@ =~= y@);
        lemma_bytes_determine_text(a@, b@);
    }
    true
}

/// The number of bytes that a text takes.
pub open spec fn byte_len(s: Seq<char>) -> nat {
    encode_utf8(s).len()
}

/// The number of bytes that a text takes.
pub fn count_bytes(s: &str) -> (n: usize)
    ensures
        n == byte_len(s@),
{
    s.as_bytes().len()
}

/// What `String::from_utf8_lossy` makes of bytes.
pub uninterp spec fn utf8_lossy(bytes: Seq<u8>) -> Seq<char>;

/// `String::from_utf8_lossy`: the text that the bytes encode, with a replacement
/// character for what is no UTF-8. It depends on the bytes alone, and bytes in
/// order are decoded as they are.
#[verifier::external_body]
pub(crate) fn from_utf8_lossy(bytes: &[u8]) -> (r: String)
    ensures
        r@ == utf8_lossy(bytes@),
        valid_utf8(bytes@) ==> r@ == decode_utf8(bytes@),
{
    String::from_utf8_lossy(bytes).into_owned()
}

/// The text of the error of `String::from_utf8`.
pub uninterp spec fn utf8_error(bytes: Seq<u8>) -> Seq<char>;

/// `String::from_utf8`: the text that the bytes encode, or the text of an error if
/// they are no UTF-8. That text depends on the bytes alone.
#[verifier::external_body]
pub(crate) fn from_utf8(bytes: Vec<u8>) -> (r: Result<String, String>)
    ensures
        match r {
            Ok(s) => valid_utf8(bytes@) && s@ == decode_utf8(bytes@),
            Err(e) => !valid_utf8(bytes@) && e@ == utf8_error(bytes@),
        },
{
    String::from_utf8(bytes).map_err(|e| e.to_string())
}

/// What the `Debug` form of a text is.
pub uninterp spec fn debug_form(s: Seq<char>) -> Seq<char>;

/// `<str as std::fmt::Debug>::fmt`: the text in quotes with its special characters
/// escaped. The form depends on the text alone.
#[verifier::external_body]
pub(crate) fn debug_text(s: &str) -> (r: String)
    ensures
        r@ == debug_form(s@),
{
    format!("{:?}", s)
}

/// Whether a character is a letter or a number, as `char::is_alphanumeric` says.
pub uninterp spec fn alphanumeric(c: char) -> bool;

/// `char::is_alphanumeric`: whether Unicode counts the character as a letter or
/// as a number. The answer depends on the character alone.
pub assume_specification[ char::is_alphanumeric ](c: char) -> (r: bool)
    ensures
        r == alphanumeric(c),
;

/// What `char::to_lowercase` makes of a character.
pub uninterp spec fn char_lowercase(c: char) -> Seq<char>;

/// `char::to_lowercase`: the small letters for a character, which depend on the
/// character alone.
#[verifier::external_body]
pub(crate) fn lower_of(c: char) -> (r: String)
    ensures
        r@ == char_lowercase(c),
{
    c.to_lowercase().to_string()
}

/// A copy of a list of texts.
pub fn copy_list(v: &Vec<String>) -> (r: Vec<String>)
    ensures
        r@ == v@,
        r.deep_view() == v.deep_view(),
{
    let mut r: Vec<String> = Vec::new();
    let mut i: usize = 0;
    while i < v.len()
        invariant
            i <= v@.len(),
            r@ == v@.subrange(0, i as int),
        decreases v@.len() - i,
    {
        assert(v@.subrange(0, i as int).push(v@[i as int]) =~= v@.subrange(0, i + 1));
        r.push(v[i].clone());
        i = i + 1;
    }
    assert(v@.subrange(0, v@.len() as int) =~= v@);
    assert(r.deep_view() =~= v.deep_view());
    r
}

/// Whether a list of texts holds a given text.
pub fn list_contains(v: &Vec<String>, s: &str) -> (r: bool)
    ensures
        r == v.deep_view().contains(s@),
{
    let mut i: usize = 0;
    while i < v.len()
        invariant
            i <= v@.len(),
            forall|j: int| 0 <= j < i ==> v.deep_view()[j] != s@,
        decreases v@.len() - i,
    {
        if same(v[i].as_str(), s) {
            assert(v.deep_view()[i as int] == s@);
            return true;
        }
        i = i + 1;
    }
    false
}

// ---------------------------------------------------------------------------
// Searching
// ---------------------------------------------------------------------------

/// `p` stands in `s` at position `i`.
pub open spec fn occurs_at<T>(s: Seq<T>, p: Seq<T>, i: int) -> bool {
    0 <= i && i + p.len() <= s.len() && s.subrange(i, i + p.len()) == p
}

/// The first position at or after `i` at which `p` stands in `s`.
pub open spec fn find_from<T>(s: Seq<T>, p: Seq<T>, i: int) -> Option<int>
    decreases s.len() + 1 - i,
{
    if i < 0 || i + p.len() > s.len() {
        None
    } else if occurs_at(s, p, i) {
        Some(i)
    } else {
        find_from(s, p, i + 1)
    }
}

/// The first position at which `p` stands in `s`.
pub open spec fn find<T>(s: Seq<T>, p: Seq<T>) -> Option<int> {
    find_from(s, p, 0)
}

/// `p` stands somewhere in `s`.
pub open spec fn has<T>(s: Seq<T>, p: Seq<T>) -> bool {
    exists|i: int| #[trigger] occurs_at(s, p, i)
}

/// The last position at or before `i` at which `p` stands in `s`.
pub open spec fn rfind_from<T>(s: Seq<T>, p: Seq<T>, i: int) -> Option<int>
    decreases i + 1,
{
    if i < 0 {
        None
    } else if occurs_at(s, p, i) {
        Some(i)
    } else {
        rfind_from(s, p, i - 1)
    }
}

/// The last position at which `p` stands in `s`.
pub open spec fn rfind<T>(s: Seq<T>, p: Seq<T>) -> Option<int> {
    rfind_from(s, p, s.len() - p.len())
}

/// What `find_from` gives is the least position at which the pattern stands.
pub proof fn lemma_find_from<T>(s: Seq<T>, p: Seq<T>, i: int)
    requires
        0 <= i,
    ensures
        match find_from(s, p, i) {
            Some(k) => i <= k && occurs_at(s, p, k) && (forall|j: int|
                i <= j < k ==> !#[trigger] occurs_at(s, p, j)),
            None => forall|j: int| i <= j ==> !#[trigger] occurs_at(s, p, j),
        },
    decreases s.len() + 1 - i,
{
    if i + p.len() > s.len() {
    } else if occurs_at(s, p, i) {
    } else {
        lemma_find_from(s, p, i + 1);
    }
}

/// A text holds a pattern exactly when the search finds it.
pub proof fn lemma_has_iff_found<T>(s: Seq<T>, p: Seq<T>)
    ensures
        has(s, p) == find(s, p) is Some,
{
    lemma_find_from(s, p, 0);
    if has(s, p) {
        let i = choose|i: int| #[trigger] occurs_at(s, p, i);
        assert(occurs_at(s, p, i));
    }
}

fn chars_at(s: &Vec<char>, p: &Vec<char>, i: usize) -> (r: bool)
    requires
        i + p@.len() <= s@.len(),
    ensures
        r == occurs_at(s@, p@, i as int),
{
    let n: usize = s.len();
    let mut k: usize = 0;
    while k < p.len()
        invariant
            k <= p@.len(),
            i + p@.len() <= n,
            n == s@.len(),
            forall|j: int| 0 <= j < k ==> s@[i + j] == p@[j],
        decreases p@.len() - k,
    {
        if s[i + k] != p[k] {
            assert(s@.subrange(i as int, i + p@.len())[k as int] != p@[k as int]);
            return false;
        }
        k = k + 1;
    }
    assert(s@.subrange(i as int, i + p@.len()) =~= p@);
    true
}

/// The first position at or after `from` at which `p` stands in `s`.
pub fn find_chars(s: &Vec<char>, p: &Vec<char>, from: usize) -> (r: Option<usize>)
    requires
        from <= s@.len(),
    ensures
        match r {
            Some(k) => find_from(s@, p@, from as int) == Some(k as int) && from <= k && k + p@.len()
                <= s@.len(),
            None => find_from(s@, p@, from as int) is None,
        },
{
    if p.len() > s.len() {
        return None;
    }
    let last: usize = s.len() - p.len();
    let mut i: usize = from;
    while i <= last
        invariant
            from <= i <= s@.len(),
            last == s@.len() - p@.len(),
            find_from(s@, p@, from as int) == find_from(s@, p@, i as int),
        decreases s@.len() + 1 - i,
    {
        if chars_at(s, p, i) {
            return Some(i);
        }
        if i == last {
            return None;
        }
        i = i + 1;
    }
    None
}

/// Whether `p` stands somewhere in `s`.
pub fn contains(s: &str, p: &str) -> (r: bool)
    ensures
        r == has(s@, p@),
{
    let sv = to_chars(s);
    let pv = to_chars(p);
    proof {
        lemma_has_iff_found(s@, p@);
    }
    match find_chars(&sv, &pv, 0) {
        Some(_) => true,
        None => false,
    }
}

/// The last position at which `p` stands in `s`.
pub fn rfind_chars(s: &Vec<char>, p: &Vec<char>) -> (r: Option<usize>)
    ensures
        match r {
            Some(k) => rfind(s@, p@) == Some(k as int) && k + p@.len() <= s@.len(),
            None => rfind(s@, p@) is None,
        },
{
    if p.len() > s.len() {
        return None;
    }
    let mut i: usize = s.len() - p.len();
    while i > 0
        invariant
            i + p@.len() <= s@.len(),
            rfind(s@, p@) == rfind_from(s@, p@, i as int),
        decreases i,
    {
        if chars_at(s, p, i) {
            return Some(i);
        }
        i = i - 1;
    }
    if chars_at(s, p, 0) {
        Some(0)
    } else {
        assert(rfind_from(s@, p@, -1) is None);
        None
    }
}

/// `p` begins `s`.
pub open spec fn begins<T>(s: Seq<T>, p: Seq<T>) -> bool {
    occurs_at(s, p, 0)
}

/// `p` ends `s`.
pub open spec fn ends<T>(s: Seq<T>, p: Seq<T>) -> bool {
    occurs_at(s, p, s.len() - p.len())
}

/// Whether `p` begins `s`.
pub fn starts_with(s: &str, p: &str) -> (r: bool)
    ensures
        r == begins(s@, p@),
{
    let sv = to_chars(s);
    let pv = to_chars(p);
    if pv.len() > sv.len() {
        return false;
    }
    chars_at(&sv, &pv, 0)
}

/// Whether `p` ends `s`.
pub fn ends_with(s: &str, p: &str) -> (r: bool)
    ensures
        r == ends(s@, p@),
{
    let sv = to_chars(s);
    let pv = to_chars(p);
    if pv.len() > sv.len() {
        return false;
    }
    chars_at(&sv, &pv, sv.len() - pv.len())
}

/// What follows `p` in a text that it begins.
pub open spec fn after_prefix(s: Seq<char>, p: Seq<char>) -> Option<Seq<char>> {
    if begins(s, p) {
        Some(s.subrange(p.len() as int, s.len() as int))
    } else {
        None
    }
}

/// What follows `p` in a text that it begins.
pub fn strip_prefix(s: &str, p: &str) -> (r: Option<String>)
    ensures
        r.deep_view() == after_prefix(s@, p@),
{
    let sv = to_chars(s);
    let pv = to_chars(p);
    if pv.len() <= sv.len() && chars_at(&sv, &pv, 0) {
        Some(slice_text(&sv, pv.len(), sv.len()))
    } else {
        None
    }
}

/// The parts before and after the first place where `p` stands.
pub open spec fn cut(s: Seq<char>, p: Seq<char>) -> Option<(Seq<char>, Seq<char>)> {
    match find(s, p) {
        Some(i) => Some((s.subrange(0, i), s.subrange(i + p.len(), s.len() as int))),
        None => None,
    }
}

/// The parts before and after the first place where `p` stands.
pub fn split_once(s: &str, p: &str) -> (r: Option<(String, String)>)
    ensures
        r.deep_view() == cut(s@, p@),
{
    let sv = to_chars(s);
    let pv = to_chars(p);
    let n: usize = sv.len();
    match find_chars(&sv, &pv, 0) {
        Some(i) => Some((slice_text(&sv, 0, i), slice_text(&sv, i + pv.len(), n))),
        None => None,
    }
}

// ---------------------------------------------------------------------------
// White space
// ---------------------------------------------------------------------------

/// The characters with the Unicode property `White_Space`.
pub open spec fn white(c: char) -> bool {
    ||| '\u{9}' <= c <= '\u{d}'
    ||| c == ' '
    ||| c == '\u{85}'
    ||| c == '\u{a0}'
    ||| c == '\u{1680}'
    ||| '\u{2000}' <= c <= '\u{200a}'
    ||| c == '\u{2028}'
    ||| c == '\u{2029}'
    ||| c == '\u{202f}'
    ||| c == '\u{205f}'
    ||| c == '\u{3000}'
}

/// Whether a character has the Unicode property `White_Space`.
pub fn is_white(c: char) -> (r: bool)
    ensures
        r == white(c),
{
    ('\u{9}' <= c && c <= '\u{d}') || c == ' ' || c == '\u{85}' || c == '\u{a0}' || c == '\u{1680}'
        || ('\u{2000}' <= c && c <= '\u{200a}') || c == '\u{2028}' || c == '\u{2029}' || c
        == '\u{202f}' || c == '\u{205f}' || c == '\u{3000}'
}

/// The text without the white space at its start.
pub open spec fn trimmed_start(s: Seq<char>) -> Seq<char>
    decreases s.len(),
{
    if s.len() > 0 && white(s[0]) {
        trimmed_start(s.subrange(1, s.len() as int))
    } else {
        s
    }
}

/// The text without the white space at its end.
pub open spec fn trimmed_end(s: Seq<char>) -> Seq<char>
    decreases s.len(),
{
    if s.len() > 0 && white(s.last()) {
        trimmed_end(s.drop_last())
    } else {
        s
    }
}

/// The text without the white space at either end.
pub open spec fn trimmed(s: Seq<char>) -> Seq<char> {
    trimmed_end(trimmed_start(s))
}

/// The text without the white space at its end.
pub fn trim_end(s: &str) -> (r: String)
    ensures
        r@ == trimmed_end(s@),
{
    let v = to_chars(s);
    let mut n: usize = v.len();
    assert(v@.subrange(0, n as int) =~= s@);
    while n > 0 && is_white(v[n - 1])
        invariant
            n <= v@.len(),
            trimmed_end(v@.subrange(0, n as int)) == trimmed_end(s@),
        decreases n,
    {
        assert(v@.subrange(0, n as int).drop_last() =~= v@.subrange(0, n - 1));
        n = n - 1;
    }
    slice_text(&v, 0, n)
}

/// The text without the white space at either end.
pub fn trim(s: &str) -> (r: String)
    ensures
        r@ == trimmed(s@),
{
    let v = to_chars(s);
    let mut i: usize = 0;
    assert(v@.subrange(0, v@.len() as int) =~= s@);
    while i < v.len() && is_white(v[i])
        invariant
            i <= v@.len(),
            trimmed_start(v@.subrange(i as int, v@.len() as int)) == trimmed_start(s@),
        decreases v@.len() - i,
    {
        assert(v@.subrange(i as int, v@.len() as int).subrange(1, v@.len() - i) =~= v@.subrange(
            i + 1,
            v@.len() as int,
        ));
        i = i + 1;
    }
    let rest = slice_text(&v, i, v.len());
    trim_end(rest.as_str())
}

// ---------------------------------------------------------------------------
// Splitting and joining
// ---------------------------------------------------------------------------

/// The position of the first `c` at or after `i`, or the text's length.
pub open spec fn next_at(s: Seq<char>, c: char, i: int) -> int
    decreases s.len() - i,
{
    if i >= s.len() {
        s.len() as int
    } else if s[i] == c {
        i
    } else {
        next_at(s, c, i + 1)
    }
}

pub proof fn lemma_next_at(s: Seq<char>, c: char, i: int)
    requires
        0 <= i <= s.len(),
    ensures
        i <= next_at(s, c, i) <= s.len(),
        next_at(s, c, i) < s.len() ==> s[next_at(s, c, i)] == c,
        forall|j: int| i <= j < next_at(s, c, i) ==> s[j] != c,
    decreases s.len() - i,
{
    if i < s.len() && s[i] != c {
        lemma_next_at(s, c, i + 1);
    }
}

/// The parts of `s` from `i` on between the characters `c`.
pub open spec fn pieces_from(s: Seq<char>, c: char, i: int) -> Seq<Seq<char>>
    decreases s.len() - i,
    when 0 <= i <= s.len()
    via pieces_from_decreases
{
    let j = next_at(s, c, i);
    if j >= s.len() {
        seq![s.subrange(i, s.len() as int)]
    } else {
        seq![s.subrange(i, j)] + pieces_from(s, c, j + 1)
    }
}

#[via_fn]
proof fn pieces_from_decreases(s: Seq<char>, c: char, i: int) {
    lemma_next_at(s, c, i);
}

/// The parts of `s` between the characters `c`.
pub open spec fn pieces(s: Seq<char>, c: char) -> Seq<Seq<char>> {
    pieces_from(s, c, 0)
}

/// A text falls into several parts exactly when it holds the separator.
pub proof fn lemma_pieces_many(s: Seq<char>, c: char)
    ensures
        pieces(s, c).len() > 0,
        (pieces(s, c).len() > 1) == s.contains(c),
{
    lemma_next_at(s, c, 0);
    let j = next_at(s, c, 0);
    if j < s.len() {
        assert(s.contains(s[j]));
        lemma_pieces_some(s, c, j + 1);
    } else {
        assert forall|k: int| 0 <= k < s.len() implies s[k] != c by {}
    }
}

proof fn lemma_pieces_some(s: Seq<char>, c: char, i: int)
    requires
        0 <= i <= s.len(),
    ensures
        pieces_from(s, c, i).len() > 0,
    decreases s.len() - i,
{
    lemma_next_at(s, c, i);
    let j = next_at(s, c, i);
    if j < s.len() {
        lemma_pieces_some(s, c, j + 1);
    }
}

/// The parts of a text between the characters `c`.
pub fn split(s: &str, c: char) -> (r: Vec<String>)
    ensures
        r.deep_view() == pieces(s@, c),
        r@.len() > 0,
{
    let v = to_chars(s);
    let mut r: Vec<String> = Vec::new();
    let mut start: usize = 0;
    let mut i: usize = 0;
    assert(r.deep_view() + pieces_from(s@, c, 0) =~= pieces(s@, c));
    while i < v.len()
        invariant
            v@ == s@,
            start <= i <= v@.len(),
            next_at(s@, c, start as int) == next_at(s@, c, i as int),
            r.deep_view() + pieces_from(s@, c, start as int) == pieces(s@, c),
        decreases v@.len() - i,
    {
        if v[i] == c {
            let piece = slice_text(&v, start, i);
            let ghost before = r.deep_view();
            r.push(piece);
            proof {
                assert(r.deep_view() =~= before.push(piece@));
                assert(r.deep_view() + pieces_from(s@, c, i + 1) =~= before + (seq![piece@]
                    + pieces_from(s@, c, i + 1)));
            }
            start = i + 1;
        }
        i = i + 1;
    }
    let piece = slice_text(&v, start, v.len());
    let ghost before = r.deep_view();
    r.push(piece);
    proof {
        assert(r.deep_view() =~= before + seq![piece@]);
    }
    r
}

/// A line without the carriage return before its line feed.
pub open spec fn without_cr(s: Seq<char>) -> Seq<char> {
    if s.len() > 0 && s.last() == '\r' {
        s.drop_last()
    } else {
        s
    }
}

/// The lines among the first `n` parts, all of which a line feed ended.
pub open spec fn ended_lines(ps: Seq<Seq<char>>) -> Seq<Seq<char>> {
    ps.map_values(|p: Seq<char>| without_cr(p))
}

/// The lines of a text: each ends with a line feed, which a carriage return may
/// precede; the last line may lack its line feed.
pub open spec fn lines_of(s: Seq<char>) -> Seq<Seq<char>> {
    let ps = pieces(s, '\n');
    if ps.last().len() == 0 {
        ended_lines(ps.drop_last())
    } else {
        ended_lines(ps.drop_last()).push(ps.last())
    }
}

fn drop_cr(s: &String) -> (r: String)
    ensures
        r@ == without_cr(s@),
{
    let v = to_chars(s.as_str());
    if v.len() > 0 && v[v.len() - 1] == '\r' {
        assert(v@.subrange(0, v@.len() - 1) =~= s@.drop_last());
        slice_text(&v, 0, v.len() - 1)
    } else {
        s.clone()
    }
}

/// The lines of a text.
pub fn lines(s: &str) -> (r: Vec<String>)
    ensures
        r.deep_view() == lines_of(s@),
{
    let ps = split(s, '\n');
    let ghost all = pieces(s@, '\n');
    let n: usize = ps.len() - 1;
    let mut r: Vec<String> = Vec::new();
    let mut i: usize = 0;
    while i < n
        invariant
            i <= n < ps@.len(),
            ps.deep_view() == all,
            r.deep_view() == ended_lines(all.subrange(0, i as int)),
        decreases n - i,
    {
        assert(all[i as int] == ps@[i as int]@);
        let ghost before = r.deep_view();
        r.push(drop_cr(&ps[i]));
        assert(r.deep_view() =~= before.push(without_cr(all[i as int])));
        assert(ended_lines(all.subrange(0, i + 1)) =~= ended_lines(all.subrange(0, i as int)).push(
            without_cr(all[i as int]),
        ));
        i = i + 1;
    }
    assert(all.subrange(0, n as int) =~= all.drop_last());
    assert(all.last() == ps@[n as int]@);
    if !ps[n].as_str().is_empty() {
        let ghost before = r.deep_view();
        r.push(ps[n].clone());
        assert(r.deep_view() =~= before.push(all.last()));
    }
    r
}

/// The first `n` texts with `sep` between neighbours.
pub open spec fn joined_upto(ps: Seq<Seq<char>>, sep: Seq<char>, n: int) -> Seq<char>
    decreases n,
{
    if n <= 0 {
        Seq::empty()
    } else if n == 1 {
        ps[0]
    } else {
        joined_upto(ps, sep, n - 1) + sep + ps[n - 1]
    }
}

/// The texts with `sep` between neighbours.
pub open spec fn joined(ps: Seq<Seq<char>>, sep: Seq<char>) -> Seq<char> {
    joined_upto(ps, sep, ps.len() as int)
}

/// The texts with `sep` between neighbours.
pub fn join(ps: &Vec<String>, sep: &str) -> (r: String)
    ensures
        r@ == joined(ps.deep_view(), sep@),
{
    if ps.len() == 0 {
        return String::new();
    }
    let mut r: String = ps[0].clone();
    let mut i: usize = 1;
    while i < ps.len()
        invariant
            1 <= i <= ps@.len(),
            r@ == joined_upto(ps.deep_view(), sep@, i as int),
        decreases ps@.len() - i,
    {
        r.append(sep);
        r.append(ps[i].as_str());
        i = i + 1;
    }
    r
}

/// `s` from `i` on with every `p` replaced by `q`, from left to right.
pub open spec fn replaced_from(s: Seq<char>, p: Seq<char>, q: Seq<char>, i: int) -> Seq<char>
    decreases s.len() - i,
    when p.len() > 0 && 0 <= i
{
    if i >= s.len() {
        Seq::empty()
    } else if occurs_at(s, p, i) {
        q + replaced_from(s, p, q, i + p.len())
    } else {
        seq![s[i]] + replaced_from(s, p, q, i + 1)
    }
}

/// `s` with every `p` replaced by `q`, from left to right.
pub open spec fn replaced(s: Seq<char>, p: Seq<char>, q: Seq<char>) -> Seq<char> {
    replaced_from(s, p, q, 0)
}

/// The text with every `p` replaced by `q`, from left to right.
pub fn replace(s: &str, p: &str, q: &str) -> (r: String)
    requires
        p@.len() > 0,
    ensures
        r@ == replaced(s@, p@, q@),
{
    let v = to_chars(s);
    let pv = to_chars(p);
    let mut r: String = String::new();
    let mut i: usize = 0;
    assert(r@ + replaced_from(s@, p@, q@, 0) =~= replaced(s@, p@, q@));
    while i < v.len()
        invariant
            v@ == s@,
            pv@ == p@,
            p@.len() > 0,
            i <= v@.len(),
            r@ + replaced_from(s@, p@, q@, i as int) == replaced(s@, p@, q@),
        decreases v@.len() - i,
    {
        let ghost before = r@;
        if pv.len() <= v.len() - i && chars_at(&v, &pv, i) {
            r.append(q);
            proof {
                assert(r@ + replaced_from(s@, p@, q@, i + p@.len()) =~= before + (q@
                    + replaced_from(s@, p@, q@, i + p@.len())));
            }
            i = i + pv.len();
        } else {
            r.push(v[i]);
            proof {
                assert(r@ + replaced_from(s@, p@, q@, i + 1) =~= before + (seq![s@[i as int]]
                    + replaced_from(s@, p@, q@, i + 1)));
            }
            i = i + 1;
        }
    }
    assert(r@ =~= r@ + replaced_from(s@, p@, q@, i as int));
    r
}

// ---------------------------------------------------------------------------
// Case
// ---------------------------------------------------------------------------

/// An ASCII capital as its small letter; any other character as it is.
pub open spec fn ascii_lower_char(c: char) -> char {
    if 'A' <= c <= 'Z' {
        ((c as u8) + 32) as u8 as char
    } else {
        c
    }
}

/// The text with its ASCII capitals as small letters.
pub open spec fn ascii_lower(s: Seq<char>) -> Seq<char> {
    s.map_values(|c: char| ascii_lower_char(c))
}

/// An ASCII capital as its small letter; any other character as it is.
pub fn lower_char(c: char) -> (r: char)
    ensures
        r == ascii_lower_char(c),
{
    if 'A' <= c && c <= 'Z' {
        ((c as u8) + 32) as char
    } else {
        c
    }
}

/// The text with its ASCII capitals as small letters.
pub fn to_ascii_lowercase(s: &str) -> (r: String)
    ensures
        r@ == ascii_lower(s@),
{
    let v = to_chars(s);
    let mut r: String = String::new();
    let mut i: usize = 0;
    while i < v.len()
        invariant
            v@ == s@,
            i <= v@.len(),
            r@ == ascii_lower(s@.subrange(0, i as int)),
        decreases v@.len() - i,
    {
        r.push(lower_char(v[i]));
        assert(ascii_lower(s@.subrange(0, i + 1)) =~= ascii_lower(s@.subrange(0, i as int)).push(
            ascii_lower_char(s@[i as int]),
        ));
        i = i + 1;
    }
    assert(s@.subrange(0, s@.len() as int) =~= s@);
    r
}

/// Whether two texts differ at most in the case of ASCII letters.
pub fn eq_ignore_ascii_case(a: &str, b: &str) -> (r: bool)
    ensures
        r == (ascii_lower(a@) == ascii_lower(b@)),
{
    let x = to_ascii_lowercase(a);
    let y = to_ascii_lowercase(b);
    same(x.as_str(), y.as_str())
}

/// What `str::to_lowercase` makes of a text.
pub uninterp spec fn lowercase(s: Seq<char>) -> Seq<char>;

/// `str::to_lowercase`: the text with each character mapped to small letters as
/// Unicode defines them; the result depends on the text alone.
#[verifier::external_body]
pub(crate) fn to_lowercase(s: &str) -> (r: String)
    ensures
        r@ == lowercase(s@),
{
    s.to_lowercase()
}

// ---------------------------------------------------------------------------
// Decimal numbers
// ---------------------------------------------------------------------------

/// The character of a decimal digit.
pub open spec fn digit_char(d: nat) -> char {
    (48 + d) as u8 as char
}

/// The decimal notation of a number.
pub open spec fn decimal(n: nat) -> Seq<char>
    decreases n,
{
    if n < 10 {
        seq![digit_char(n)]
    } else {
        decimal(n / 10).push(digit_char(n % 10))
    }
}

/// The decimal notation of a number.
pub fn dec(n: u64) -> (r: String)
    ensures
        r@ == decimal(n as nat),
    decreases n,
{
    let d: u8 = 48 + (n % 10) as u8;
    if n < 10 {
        let mut s = String::new();
        s.push(d as char);
        assert(s@ =~= seq![digit_char(n as nat)]);
        s
    } else {
        let mut s = dec(n / 10);
        s.push(d as char);
        s
    }
}

/// Whether a character is a decimal digit.
pub open spec fn is_digit(c: char) -> bool {
    '0' <= c <= '9'
}

/// The value of the digits before position `n`, if all are digits.
pub open spec fn digits_value(s: Seq<char>, n: int) -> Option<nat>
    decreases n,
{
    if n <= 0 {
        Some(0)
    } else {
        match digits_value(s, n - 1) {
            Some(v) => if is_digit(s[n - 1]) {
                Some((v * 10 + (s[n - 1] as nat - 48)) as nat)
            } else {
                None
            },
            None => None,
        }
    }
}

/// The number that a text of one or more digits denotes.
pub open spec fn digits_number(s: Seq<char>) -> Option<nat> {
    if s.len() == 0 {
        None
    } else {
        digits_value(s, s.len() as int)
    }
}

/// The text without one plus sign at its start.
pub open spec fn without_plus(s: Seq<char>) -> Seq<char> {
    if s.len() > 0 && s[0] == '+' {
        s.subrange(1, s.len() as int)
    } else {
        s
    }
}

/// The number that a text denotes: digits, after an optional plus sign.
pub open spec fn number(s: Seq<char>) -> Option<nat> {
    digits_number(without_plus(s))
}

/// The number that a text denotes, if it is at most `max`.
pub open spec fn number_upto(s: Seq<char>, max: nat) -> Option<nat> {
    match number(s) {
        Some(v) => if v <= max {
            Some(v)
        } else {
            None
        },
        None => None,
    }
}

proof fn lemma_digits_value_none(s: Seq<char>, i: int, n: int)
    requires
        i <= n,
        digits_value(s, i) is None,
    ensures
        digits_value(s, n) is None,
    decreases n - i,
{
    if i < n {
        lemma_digits_value_none(s, i, n - 1);
    }
}

proof fn lemma_digits_value_grows(s: Seq<char>, i: int, n: int)
    requires
        0 <= i <= n,
        digits_value(s, i) is Some,
    ensures
        digits_value(s, n) is Some ==> digits_value(s, n)->0 >= digits_value(s, i)->0,
    decreases n - i,
{
    if i < n {
        lemma_digits_value_grows(s, i, n - 1);
    }
}

/// The number that a text denotes, if it is at most `max`.
pub fn parse_upto(s: &str, max: u64) -> (r: Option<u64>)
    ensures
        match r {
            Some(v) => number_upto(s@, max as nat) == Some(v as nat),
            None => number_upto(s@, max as nat) is None,
        },
{
    let v = to_chars(s);
    let from: usize = if v.len() > 0 && v[0] == '+' {
        1
    } else {
        0
    };
    let ghost t = without_plus(s@);
    assert(t =~= v@.subrange(from as int, v@.len() as int));
    if from >= v.len() {
        return None;
    }
    let mut acc: u64 = 0;
    let mut i: usize = from;
    while i < v.len()
        invariant
            from <= i <= v@.len(),
            t == v@.subrange(from as int, v@.len() as int),
            t == without_plus(s@),
            t.len() > 0,
            acc <= max,
            digits_value(t, i - from) == Some(acc as nat),
        decreases v@.len() - i,
    {
        let c = v[i];
        assert(t[i - from] == c);
        proof {
            assert(digits_value(t, i + 1 - from) == (if is_digit(c) {
                Some((acc as nat * 10 + (c as nat - 48)) as nat)
            } else {
                None::<nat>
            }));
        }
        if !('0' <= c && c <= '9') {
            proof {
                lemma_digits_value_none(t, i + 1 - from, t.len() as int);
            }
            return None;
        }
        let d: u64 = (c as u8 - 48) as u64;
        let wide: u128 = acc as u128 * 10 + d as u128;
        if wide > max as u128 {
            proof {
                lemma_digits_value_grows(t, i + 1 - from, t.len() as int);
            }
            return None;
        }
        acc = wide as u64;
        i = i + 1;
    }
    Some(acc)
}

} // verus!
