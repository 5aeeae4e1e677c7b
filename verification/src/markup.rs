//! HTML that can be handed on for rendering.
//!
//! Numbers in the markup decide how many columns a cell takes and where a list
//! starts, and tags decide how deep the tree of a document is. Markup is rendered
//! only where these stay within bounds. Before it is rendered, characters that cling
//! to others are parted from them, and a character that shows nothing is put at the
//! start of preformatted text, so that such text always takes some room.

use vstd::prelude::*;

use crate::joining::{clings_at, number_from, part, parted, parted_upto, read_number};
use crate::text::{ascii_lower, ascii_lower_char, lower_char, occurs_at, to_chars};

verus! {

broadcast use vstd::seq_lib::group_seq_properties;

/// The most opening tags that markup may have, but for those of elements that hold
/// nothing. Each may open one level of the document's tree, which is taken down again
/// by recursion.
pub const MAX_TAGS: usize = 10_000;

/// The first number past those that a list can start with.
pub const START_LIMIT: u64 = 0x8000_0000_0000_0000;

/// White space that takes no room in preformatted text.
pub const FILLER: char = '\u{c}';

/// Whether a character is white space in markup.
pub open spec fn markup_space(c: char) -> bool {
    c == ' ' || c == '\t' || c == '\n' || c == '\r' || c == '\u{c}'
}

/// The first position at or after `i` that holds no white space.
pub open spec fn past_space(s: Seq<char>, i: int) -> int
    decreases s.len() - i,
{
    if i < s.len() && markup_space(s[i]) {
        past_space(s, i + 1)
    } else {
        i
    }
}

/// The first position at or after `i` that holds no decimal digit.
pub open spec fn past_digits(s: Seq<char>, i: int) -> int
    decreases s.len() - i,
{
    if i < s.len() && '0' <= s[i] <= '9' {
        past_digits(s, i + 1)
    } else {
        i
    }
}

/// Where the digits of an attribute's value begin, if the value begins at `i`: after
/// a quote and after a sign.
pub open spec fn number_start(s: Seq<char>, i: int) -> int {
    let j = if i < s.len() && (s[i] == '"' || s[i] == '\'') {
        i + 1
    } else {
        i
    };
    if j < s.len() && (s[j] == '+' || s[j] == '-') {
        j + 1
    } else {
        j
    }
}

/// Where the number in the value of an attribute whose name ends before `i` begins,
/// if the attribute has a value.
pub open spec fn value_at(s: Seq<char>, i: int) -> Option<int> {
    let e = past_space(s, i);
    if e < s.len() && s[e] == '=' {
        Some(number_start(s, past_space(s, e + 1)))
    } else {
        None
    }
}

/// Whether no character reference goes on the digits at `p`.
pub open spec fn plain_digits(s: Seq<char>, p: int) -> bool {
    let q = past_digits(s, p);
    !(q < s.len() && s[q] == '&')
}

/// Whether an attribute with a name, in whatever case, can begin at `i`.
pub open spec fn attribute_at(s: Seq<char>, name: Seq<char>, i: int) -> bool {
    &&& 0 < i
    &&& markup_space(s[i - 1]) || s[i - 1] == '/' || s[i - 1] == '"' || s[i - 1] == '\''
    &&& occurs_at(ascii_lower(s), name, i)
}

/// Whether the numbers of a list can be counted, if its attribute's name ends before
/// `i`: what it starts with lies well below the limit, or is no such number at all.
pub open spec fn list_fits(s: Seq<char>, i: int) -> bool {
    match value_at(s, i) {
        Some(p) => {
            let n = number_from(s, p, 10, 0);
            plain_digits(s, p) && (n + MAX_TAGS < START_LIMIT || n > START_LIMIT)
        },
        None => true,
    }
}

/// Whether the numbers of every list can be counted.
pub open spec fn lists_fit(s: Seq<char>) -> bool {
    forall|i: int| #[trigger] attribute_at(s, "start"@, i) ==> list_fits(s, i + "start"@.len())
}

/// How many columns a cell asks for, if its attribute's name ends before `i`.
pub open spec fn span_at(s: Seq<char>, i: int) -> int {
    match value_at(s, i) {
        Some(p) if number_from(s, p, 10, 0) <= usize::MAX => number_from(s, p, 10, 0),
        _ => 0,
    }
}

/// How many columns the cells before `k` ask for.
pub open spec fn spans_upto(s: Seq<char>, k: int) -> int
    decreases k,
{
    if k <= 0 {
        0
    } else if attribute_at(s, "colspan"@, k - 1) {
        spans_upto(s, k - 1) + span_at(s, k - 1 + "colspan"@.len())
    } else {
        spans_upto(s, k - 1)
    }
}

/// Whether the value of an attribute whose name ends before `i` is written out.
pub open spec fn written_out(s: Seq<char>, i: int) -> bool {
    match value_at(s, i) {
        Some(p) => plain_digits(s, p),
        None => true,
    }
}

/// Whether the columns of every table can be counted, though a cell that asks for no
/// number of columns takes as many as there are.
pub open spec fn spans_fit(s: Seq<char>) -> bool {
    let n = tags_upto(s, s.len() as int);
    &&& forall|i: int| #[trigger]
        attribute_at(s, "colspan"@, i) ==> written_out(s, i + "colspan"@.len())
    &&& (spans_upto(s, s.len() as int) + n) * (n + 1) <= usize::MAX
}

/// Whether a tag with a name, in whatever case, opens at `i`; the name is given with
/// the sign before it.
pub open spec fn tag_at(s: Seq<char>, name: Seq<char>, i: int) -> bool {
    let e = i + name.len();
    &&& occurs_at(ascii_lower(s), name, i)
    &&& e == s.len() || markup_space(s[e]) || s[e] == '/' || s[e] == '>'
}

/// Whether the tag of an element that never holds others opens at `i`.
pub open spec fn empty_at(s: Seq<char>, i: int) -> bool {
    tag_at(s, "<br"@, i) || tag_at(s, "<hr"@, i) || tag_at(s, "<img"@, i) || tag_at(
        s,
        "<meta"@,
        i,
    )
}

/// Whether the tag of an element that may hold others opens at `i`.
pub open spec fn opens_at(s: Seq<char>, i: int) -> bool {
    &&& 0 <= i && i + 1 < s.len()
    &&& s[i] == '<' && ('a' <= s[i + 1] <= 'z' || 'A' <= s[i + 1] <= 'Z')
    &&& !empty_at(s, i)
}

/// How many tags of elements that may hold others open before `k`.
pub open spec fn tags_upto(s: Seq<char>, k: int) -> nat
    decreases k,
{
    if k <= 0 {
        0
    } else if opens_at(s, k - 1) {
        tags_upto(s, k - 1) + 1
    } else {
        tags_upto(s, k - 1)
    }
}

/// Whether a tag of preformatted text opens at `i`.
pub open spec fn pre_at(s: Seq<char>, i: int) -> bool {
    tag_at(s, "<pre"@, i)
}

/// Where a tag ends, seen from `j` inside of it: behind the next `>`. Nothing where
/// that one may stand in a value: where a quote is open, or where a quote follows an
/// equals sign within another.
pub open spec fn tag_end(s: Seq<char>, j: int, quote: Option<char>, equals: bool) -> Option<int>
    decreases s.len() - j,
{
    if j >= s.len() || s[j] == '<' {
        None
    } else {
        let quoting = s[j] == '"' || s[j] == '\'';
        let eq = s[j] == '=' || (equals && markup_space(s[j]));
        match quote {
            None => if s[j] == '>' {
                Some(j + 1)
            } else if quoting {
                tag_end(s, j + 1, Some(s[j]), false)
            } else {
                tag_end(s, j + 1, None, eq)
            },
            Some(q) => if s[j] == '>' || (equals && quoting) {
                None
            } else if s[j] == q {
                tag_end(s, j + 1, None, false)
            } else {
                tag_end(s, j + 1, quote, eq)
            },
        }
    }
}

/// Where text begins behind a tag that ends before `e`: after a line end.
pub open spec fn past_line_end(s: Seq<char>, e: int) -> int {
    if e < s.len() && s[e] == '\n' {
        e + 1
    } else if e + 1 < s.len() && s[e] == '\r' && s[e + 1] == '\n' {
        e + 2
    } else if e < s.len() && s[e] == '\r' {
        e + 1
    } else {
        e
    }
}

/// Where the preformatted text begins whose tag opens at `i`.
pub open spec fn pre_text(s: Seq<char>, i: int) -> Option<int> {
    if pre_at(s, i) {
        match tag_end(s, i + 4, None, false) {
            Some(e) => Some(past_line_end(s, e)),
            None => None,
        }
    } else {
        None
    }
}

/// Whether preformatted text begins at `k`.
pub open spec fn pre_begins(s: Seq<char>, k: int) -> bool {
    exists|i: int| #[trigger] pre_text(s, i) == Some(k)
}

/// The first `k` characters, with a filler where preformatted text begins.
pub open spec fn filled_upto(s: Seq<char>, k: int) -> Seq<char>
    decreases k,
{
    if k <= 0 {
        Seq::empty()
    } else if pre_begins(s, k - 1) {
        filled_upto(s, k - 1).push(FILLER).push(s[k - 1])
    } else {
        filled_upto(s, k - 1).push(s[k - 1])
    }
}

/// Markup with a filler wherever preformatted text begins.
pub open spec fn filled(s: Seq<char>) -> Seq<char> {
    filled_upto(s, s.len() as int)
}

/// Whether the preformatted text whose tag opens at `i` begins with a filler.
pub open spec fn pre_fits(s: Seq<char>, i: int) -> bool {
    match pre_text(s, i) {
        Some(k) => k < s.len() ==> s[k] == FILLER,
        None => false,
    }
}

/// Whether all preformatted text begins with a filler.
pub open spec fn pres_fit(s: Seq<char>) -> bool {
    forall|i: int| #[trigger] pre_at(s, i) ==> pre_fits(s, i)
}

/// Markup as it is handed on for rendering.
pub open spec fn prepared(s: Seq<char>) -> Seq<char> {
    parted(filled(s))
}

/// Whether markup is within the bounds of what is rendered.
pub open spec fn renderable(s: Seq<char>) -> bool {
    &&& tags_upto(s, s.len() as int) <= MAX_TAGS
    &&& lists_fit(s)
    &&& spans_fit(s)
    &&& pres_fit(s)
}

fn is_space(c: char) -> (r: bool)
    ensures
        r == markup_space(c),
{
    c == ' ' || c == '\t' || c == '\n' || c == '\r' || c == '\u{c}'
}

fn skip_space(v: &Vec<char>, i: usize) -> (r: usize)
    requires
        i <= v@.len(),
    ensures
        r == past_space(v@, i as int),
        i <= r <= v@.len(),
{
    let mut j: usize = i;
    while j < v.len() && is_space(v[j])
        invariant
            i <= j <= v@.len(),
            past_space(v@, i as int) == past_space(v@, j as int),
        decreases v@.len() - j,
    {
        j = j + 1;
    }
    j
}

fn skip_digits(v: &Vec<char>, i: usize) -> (r: usize)
    requires
        i <= v@.len(),
    ensures
        r == past_digits(v@, i as int),
        i <= r <= v@.len(),
{
    let mut j: usize = i;
    while j < v.len() && '0' <= v[j] && v[j] <= '9'
        invariant
            i <= j <= v@.len(),
            past_digits(v@, i as int) == past_digits(v@, j as int),
        decreases v@.len() - j,
    {
        j = j + 1;
    }
    j
}

fn find_value(v: &Vec<char>, i: usize) -> (r: Option<usize>)
    requires
        i <= v@.len(),
    ensures
        match r {
            Some(p) => value_at(v@, i as int) == Some(p as int) && p <= v@.len(),
            None => value_at(v@, i as int) is None,
        },
{
    let e: usize = skip_space(v, i);
    if e >= v.len() || v[e] != '=' {
        return None;
    }
    let mut p: usize = skip_space(v, e + 1);
    if p < v.len() && (v[p] == '"' || v[p] == '\'') {
        p = p + 1;
    }
    if p < v.len() && (v[p] == '+' || v[p] == '-') {
        p = p + 1;
    }
    Some(p)
}

fn has_plain_digits(v: &Vec<char>, p: usize) -> (r: bool)
    requires
        p <= v@.len(),
    ensures
        r == plain_digits(v@, p as int),
{
    let q: usize = skip_digits(v, p);
    !(q < v.len() && v[q] == '&')
}

fn is_list_fitting(v: &Vec<char>, i: usize) -> (r: bool)
    requires
        i <= v@.len(),
    ensures
        r == list_fits(v@, i as int),
{
    match find_value(v, i) {
        Some(p) => has_plain_digits(v, p) && match read_number(v, p, 10) {
            Some(n) => n > START_LIMIT || n < START_LIMIT - MAX_TAGS as u64,
            None => true,
        },
        None => true,
    }
}

fn read_span(v: &Vec<char>, i: usize) -> (r: usize)
    requires
        i <= v@.len(),
    ensures
        r == span_at(v@, i as int),
{
    match find_value(v, i) {
        Some(p) => match read_number(v, p, 10) {
            Some(n) => if n <= usize::MAX as u64 {
                n as usize
            } else {
                0
            },
            None => 0,
        },
        None => 0,
    }
}

fn is_written_out(v: &Vec<char>, i: usize) -> (r: bool)
    requires
        i <= v@.len(),
    ensures
        r == written_out(v@, i as int),
{
    match find_value(v, i) {
        Some(p) => has_plain_digits(v, p),
        None => true,
    }
}

/// Whether a name, in whatever case, stands at a position.
fn has_name(v: &Vec<char>, name: &Vec<char>, i: usize) -> (r: bool)
    requires
        i < v@.len(),
    ensures
        r == occurs_at(ascii_lower(v@), name@, i as int),
{
    if v.len() - i < name.len() {
        return false;
    }
    let ghost low = ascii_lower(v@);
    let n: usize = v.len();
    let mut k: usize = 0;
    while k < name.len()
        invariant
            k <= name@.len(),
            i + name@.len() <= n,
            n == v@.len(),
            low == ascii_lower(v@),
            forall|j: int| 0 <= j < k ==> low[i + j] == #[trigger] name@[j],
        decreases name@.len() - k,
    {
        assert(low[i + k] == ascii_lower_char(v@[i + k]));
        if lower_char(v[i + k]) != name[k] {
            assert(low.subrange(i as int, i + name@.len())[k as int] == low[i + k]);
            return false;
        }
        k = k + 1;
    }
    assert(low.subrange(i as int, i + name@.len()) =~= name@);
    true
}

fn begins_attribute(v: &Vec<char>, name: &Vec<char>, i: usize) -> (r: bool)
    requires
        i < v@.len(),
    ensures
        r == attribute_at(v@, name@, i as int),
{
    if i == 0 {
        return false;
    }
    let b: char = v[i - 1];
    (is_space(b) || b == '/' || b == '"' || b == '\'') && has_name(v, name, i)
}

fn begins_tag(v: &Vec<char>, name: &Vec<char>, i: usize) -> (r: bool)
    requires
        i < v@.len(),
    ensures
        r == tag_at(v@, name@, i as int),
{
    if !has_name(v, name, i) {
        return false;
    }
    let n: usize = v.len();
    assert(i + name@.len() <= n);
    let e: usize = i + name.len();
    e == n || is_space(v[e]) || v[e] == '/' || v[e] == '>'
}

fn are_lists_fitting(v: &Vec<char>) -> (r: bool)
    ensures
        r == lists_fit(v@),
{
    let name = to_chars("start");
    proof {
        reveal_strlit("start");
    }
    let mut i: usize = 0;
    while i < v.len()
        invariant
            name@ == "start"@,
            name@.len() == 5,
            i <= v@.len(),
            forall|j: int|
                j < i && #[trigger] attribute_at(v@, "start"@, j) ==> list_fits(v@, j + 5),
        decreases v@.len() - i,
    {
        if begins_attribute(v, &name, i) && !is_list_fitting(v, i + 5) {
            return false;
        }
        i = i + 1;
    }
    true
}

/// How many columns the cells ask for, if each number is written out and the sum is
/// not too large.
fn count_spans(v: &Vec<char>) -> (r: Option<usize>)
    ensures
        match r {
            Some(n) => {
                &&& n == spans_upto(v@, v@.len() as int)
                &&& forall|i: int| #[trigger]
                    attribute_at(v@, "colspan"@, i) ==> written_out(v@, i + "colspan"@.len())
            },
            None => !spans_fit(v@),
        },
{
    let name = to_chars("colspan");
    proof {
        reveal_strlit("colspan");
    }
    let mut n: usize = 0;
    let mut i: usize = 0;
    while i < v.len()
        invariant
            name@ == "colspan"@,
            name@.len() == 7,
            i <= v@.len(),
            n == spans_upto(v@, i as int),
            forall|j: int|
                j < i && #[trigger] attribute_at(v@, "colspan"@, j) ==> written_out(v@, j + 7),
        decreases v@.len() - i,
    {
        if begins_attribute(v, &name, i) {
            if !is_written_out(v, i + 7) {
                return None;
            }
            let w: usize = read_span(v, i + 7);
            if w > usize::MAX - n {
                proof {
                    let t = tags_upto(v@, v@.len() as int);
                    let sum = spans_upto(v@, v@.len() as int);
                    lemma_spans_grow(v@, i + 1, v@.len() as int);
                    assert((sum + t) * (t + 1) >= sum) by (nonlinear_arith)
                        requires
                            sum >= 0,
                            t >= 0,
                    ;
                }
                return None;
            }
            n = n + w;
        }
        i = i + 1;
    }
    Some(n)
}

proof fn lemma_spans_grow(s: Seq<char>, k: int, m: int)
    requires
        0 <= k <= m,
    ensures
        0 <= spans_upto(s, k) <= spans_upto(s, m),
    decreases m,
{
    if m > 0 {
        lemma_spans_grow(
            s,
            if k < m {
                k
            } else {
                m - 1
            },
            m - 1,
        );
        let i = m - 1 + "colspan"@.len();
        if let Some(p) = value_at(s, i) {
            lemma_value_position(s, i);
            lemma_number_positive(s, p);
        }
    }
}

proof fn lemma_value_position(s: Seq<char>, i: int)
    requires
        0 <= i,
    ensures
        match value_at(s, i) {
            Some(p) => p >= 0,
            None => true,
        },
{
    lemma_past_space(s, i);
    lemma_past_space(s, past_space(s, i) + 1);
}

proof fn lemma_past_space(s: Seq<char>, i: int)
    ensures
        past_space(s, i) >= i,
    decreases s.len() - i,
{
    if i < s.len() && markup_space(s[i]) {
        lemma_past_space(s, i + 1);
    }
}

proof fn lemma_number_positive(s: Seq<char>, p: int)
    requires
        0 <= p,
    ensures
        number_from(s, p, 10, 0) >= 0,
{
    crate::joining::lemma_number_grows(s, p, 10, 0);
}

fn count_tags(v: &Vec<char>) -> (r: usize)
    ensures
        r == tags_upto(v@, v@.len() as int),
{
    let br = to_chars("<br");
    let hr = to_chars("<hr");
    let img = to_chars("<img");
    let meta = to_chars("<meta");
    let mut n: usize = 0;
    let mut i: usize = 0;
    while i < v.len()
        invariant
            br@ == "<br"@,
            hr@ == "<hr"@,
            img@ == "<img"@,
            meta@ == "<meta"@,
            i <= v@.len(),
            n <= i,
            n == tags_upto(v@, i as int),
        decreases v@.len() - i,
    {
        if v[i] == '<' && i + 1 < v.len() && (('a' <= v[i + 1] && v[i + 1] <= 'z') || ('A'
            <= v[i + 1] && v[i + 1] <= 'Z')) && !(begins_tag(v, &br, i) || begins_tag(v, &hr, i)
            || begins_tag(v, &img, i) || begins_tag(v, &meta, i)) {
            n = n + 1;
        }
        i = i + 1;
    }
    n
}

fn find_tag_end(v: &Vec<char>, i: usize) -> (r: Option<usize>)
    requires
        i <= v@.len(),
    ensures
        match r {
            Some(e) => tag_end(v@, i as int, None, false) == Some(e as int) && i < e <= v@.len(),
            None => tag_end(v@, i as int, None, false) is None,
        },
{
    let mut quote: Option<char> = None;
    let mut equals = false;
    let mut j: usize = i;
    while j < v.len()
        invariant
            i <= j <= v@.len(),
            tag_end(v@, i as int, None, false) == tag_end(v@, j as int, quote, equals),
        decreases v@.len() - j,
    {
        let c: char = v[j];
        if c == '<' {
            return None;
        }
        let quoting = c == '"' || c == '\'';
        let eq = c == '=' || (equals && is_space(c));
        match quote {
            None => {
                if c == '>' {
                    return Some(j + 1);
                }
                if quoting {
                    quote = Some(c);
                    equals = false;
                } else {
                    equals = eq;
                }
            },
            Some(q) => {
                if c == '>' || (equals && quoting) {
                    return None;
                }
                if c == q {
                    quote = None;
                    equals = false;
                } else {
                    equals = eq;
                }
            },
        }
        j = j + 1;
    }
    None
}

fn find_pre_text(v: &Vec<char>, pre: &Vec<char>, i: usize) -> (r: Option<usize>)
    requires
        i < v@.len(),
        pre@ == "<pre"@,
    ensures
        match r {
            Some(k) => pre_text(v@, i as int) == Some(k as int) && k <= v@.len(),
            None => pre_text(v@, i as int) is None,
        },
{
    proof {
        reveal_strlit("<pre");
    }
    if !begins_tag(v, pre, i) {
        return None;
    }
    let n: usize = v.len();
    match find_tag_end(v, i + 4) {
        Some(e) => {
            if e < n && v[e] == '\n' {
                Some(e + 1)
            } else if e < n && v[e] == '\r' {
                if e + 1 < n && v[e + 1] == '\n' {
                    Some(e + 2)
                } else {
                    Some(e + 1)
                }
            } else {
                Some(e)
            }
        },
        None => None,
    }
}

/// For each position, whether preformatted text begins there.
fn mark_pre_texts(v: &Vec<char>) -> (r: Vec<bool>)
    ensures
        r@.len() == v@.len() + 1,
        forall|k: int| 0 <= k <= v@.len() ==> r@[k] == #[trigger] pre_begins(v@, k),
{
    let mut marks: Vec<bool> = Vec::new();
    let mut i: usize = 0;
    while i < v.len()
        invariant
            i <= v@.len(),
            marks@.len() == i,
            forall|k: int| 0 <= k < i ==> !#[trigger] marks@[k],
        decreases v@.len() - i,
    {
        marks.push(false);
        i = i + 1;
    }
    marks.push(false);
    let pre = to_chars("<pre");
    i = 0;
    while i < v.len()
        invariant
            pre@ == "<pre"@,
            i <= v@.len(),
            marks@.len() == v@.len() + 1,
            forall|j: int, k: int|
                0 <= j < i && #[trigger] pre_text(v@, j) == Some(k) && 0 <= k <= v@.len()
                    ==> #[trigger] marks@[k],
            forall|k: int|
                0 <= k <= v@.len() && #[trigger] marks@[k] ==> pre_begins(v@, k),
        decreases v@.len() - i,
    {
        if let Some(k) = find_pre_text(v, &pre, i) {
            marks.set(k, true);
        }
        i = i + 1;
    }
    assert forall|k: int| 0 <= k <= v@.len() implies marks@[k] == #[trigger] pre_begins(v@, k) by {
        if pre_begins(v@, k) {
            let j = choose|j: int| #[trigger] pre_text(v@, j) == Some(k);
            reveal_strlit("<pre");
            assert(0 <= j < v@.len());
        }
    }
    marks
}

/// Puts a filler wherever preformatted text begins.
pub fn fill(html: &str) -> (r: String)
    ensures
        r@ == filled(html@),
{
    let v = to_chars(html);
    let marks = mark_pre_texts(&v);
    let mut r = String::new();
    let mut i: usize = 0;
    while i < v.len()
        invariant
            v@ == html@,
            i <= v@.len(),
            marks@.len() == v@.len() + 1,
            forall|k: int| 0 <= k <= v@.len() ==> marks@[k] == #[trigger] pre_begins(v@, k),
            r@ == filled_upto(html@, i as int),
        decreases v@.len() - i,
    {
        assert(marks@[i as int] == pre_begins(v@, i as int));
        if marks[i] {
            r.push(FILLER);
        }
        r.push(v[i]);
        i = i + 1;
    }
    r
}

fn are_pres_fitting(v: &Vec<char>) -> (r: bool)
    ensures
        r == pres_fit(v@),
{
    let pre = to_chars("<pre");
    proof {
        reveal_strlit("<pre");
    }
    let mut i: usize = 0;
    while i < v.len()
        invariant
            pre@ == "<pre"@,
            i <= v@.len(),
            forall|j: int| j < i && #[trigger] pre_at(v@, j) ==> pre_fits(v@, j),
        decreases v@.len() - i,
    {
        if begins_tag(v, &pre, i) {
            match find_pre_text(v, &pre, i) {
                Some(k) => {
                    if k < v.len() && v[k] != FILLER {
                        return false;
                    }
                },
                None => {
                    return false;
                },
            }
        }
        i = i + 1;
    }
    true
}

proof fn lemma_plain_upto(s: Seq<char>, k: int)
    requires
        0 <= k <= s.len(),
        forall|i: int| !#[trigger] pre_at(s, i),
        forall|i: int| !#[trigger] clings_at(s, i),
    ensures
        filled_upto(s, k) == s.take(k),
        parted_upto(s, k) == s.take(k),
    decreases k,
{
    if k > 0 {
        lemma_plain_upto(s, k - 1);
        assert(s.take(k) =~= s.take(k - 1).push(s[k - 1]));
        assert(!pre_begins(s, k - 1)) by {
            if pre_begins(s, k - 1) {
                let i = choose|i: int| #[trigger] pre_text(s, i) == Some(k - 1);
                assert(pre_at(s, i));
            }
        }
        assert(!clings_at(s, k - 1));
    } else {
        assert(s.take(0) =~= Seq::empty());
    }
}

/// Markup without preformatted text and clinging characters is handed on as it is.
pub proof fn law_plain_markup_is_kept(s: Seq<char>)
    requires
        forall|i: int| !#[trigger] pre_at(s, i),
        forall|i: int| !#[trigger] clings_at(s, i),
    ensures
        prepared(s) == s,
{
    lemma_plain_upto(s, s.len() as int);
    assert(s.take(s.len() as int) =~= s);
}

/// Makes markup ready to be handed on for rendering.
pub fn prepare(html: &str) -> (r: String)
    ensures
        r@ == prepared(html@),
{
    part(fill(html).as_str())
}

/// Whether markup is within the bounds of what is rendered.
pub fn is_renderable(html: &str) -> (r: bool)
    ensures
        r == renderable(html@),
{
    let v = to_chars(html);
    let tags: usize = count_tags(&v);
    if tags > MAX_TAGS || !are_lists_fitting(&v) {
        return false;
    }
    match count_spans(&v) {
        Some(n) => {
            proof {
                assert((n + tags) * (tags + 1) <= u128::MAX) by (nonlinear_arith)
                    requires
                        n <= 0xffff_ffff_ffff_ffff,
                        tags <= 10_000,
                ;
            }
            (n as u128 + tags as u128) * (tags as u128 + 1) <= usize::MAX as u128
                && are_pres_fitting(&v)
        },
        None => false,
    }
}

} // verus!
