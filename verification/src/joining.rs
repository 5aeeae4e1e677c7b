//! Characters whose width on a terminal depends on the one before them.
//!
//! An emoji takes another width before a variation selector, a joiner or a skin
//! tone, and in some scripts two letters share one column. Where each such character
//! is parted from what stands before it, the width of a text is the sum of the
//! widths of its characters.

use vstd::prelude::*;

use crate::text::to_chars;

verus! {

broadcast use vstd::seq_lib::group_seq_properties;

/// What parts two characters: an unassigned character that takes no room and joins
/// nothing.
pub const PARTER: char = '\u{2065}';

/// Whether a character, given as its number, can change the width of the one before
/// it or share its column: the Arabic letters, the letters of Khmer that go below
/// another, the joiner of any script and that of Tifinagh, two tone marks of Lisu,
/// the variation selectors that choose a width, two vowel signs of Kirat Rai, and the
/// skin tones.
pub open spec fn clinging(n: int) -> bool {
    ||| 0x622 <= n <= 0x882
    ||| 0x1780 <= n <= 0x17af
    ||| n == 0x200d
    ||| n == 0x2d7f
    ||| 0xa4fc <= n <= 0xa4fd
    ||| n == 0xfe01
    ||| 0xfe0e <= n <= 0xfe0f
    ||| 0x16d67 <= n <= 0x16d68
    ||| 0x1f3fb <= n <= 0x1f3ff
}

fn is_clinging(n: u64) -> (r: bool)
    ensures
        r == clinging(n as int),
{
    (0x622 <= n && n <= 0x882) || (0x1780 <= n && n <= 0x17af) || n == 0x200d || n == 0x2d7f || (
    0xa4fc <= n && n <= 0xa4fd) || n == 0xfe01 || (0xfe0e <= n && n <= 0xfe0f) || (0x16d67 <= n && n
        <= 0x16d68) || (0x1f3fb <= n && n <= 0x1f3ff)
}

fn is_clinging_char(c: char) -> (r: bool)
    ensures
        r == clinging(c as int),
{
    is_clinging(c as u64)
}

// ---------------------------------------------------------------------------
// Numbers
// ---------------------------------------------------------------------------

/// The value of a digit, decimal or hexadecimal.
pub open spec fn digit_of(c: char, base: int) -> Option<int> {
    if '0' <= c <= '9' {
        Some(c as int - 48)
    } else if base == 16 && 'a' <= c <= 'f' {
        Some(c as int - 87)
    } else if base == 16 && 'A' <= c <= 'F' {
        Some(c as int - 55)
    } else {
        None
    }
}

fn read_digit(c: char, base: u64) -> (r: Option<u64>)
    ensures
        match r {
            Some(d) => {
                &&& digit_of(c, base as int) == Some(d as int)
                &&& d < 16
                &&& base != 16 ==> d < 10
            },
            None => digit_of(c, base as int) is None,
        },
{
    if '0' <= c && c <= '9' {
        Some(c as u64 - 48)
    } else if base == 16 && 'a' <= c && c <= 'f' {
        Some(c as u64 - 87)
    } else if base == 16 && 'A' <= c && c <= 'F' {
        Some(c as u64 - 55)
    } else {
        None
    }
}

/// The number that the digits from `i` on make, behind digits that make `n`.
pub open spec fn number_from(s: Seq<char>, i: int, base: int, n: int) -> int
    decreases s.len() - i,
{
    if i < s.len() {
        match digit_of(s[i], base) {
            Some(d) => number_from(s, i + 1, base, n * base + d),
            None => n,
        }
    } else {
        n
    }
}

/// Further digits make a number no smaller.
pub proof fn lemma_number_grows(s: Seq<char>, i: int, base: int, n: int)
    requires
        0 <= i,
        0 <= n,
        base >= 1,
    ensures
        number_from(s, i, base, n) >= n,
    decreases s.len() - i,
{
    if i < s.len() {
        if let Some(d) = digit_of(s[i], base) {
            assert(n * base + d >= n) by (nonlinear_arith)
                requires
                    n >= 0,
                    base >= 1,
                    d >= 0,
            ;
            lemma_number_grows(s, i + 1, base, n * base + d);
        }
    }
}

/// The number at a position, or nothing where it is too large.
pub(crate) fn read_number(v: &Vec<char>, i: usize, base: u64) -> (r: Option<u64>)
    requires
        i <= v@.len(),
        base == 10 || base == 16,
    ensures
        match r {
            Some(n) => n == number_from(v@, i as int, base as int, 0),
            None => number_from(v@, i as int, base as int, 0) > u64::MAX,
        },
{
    let mut n: u64 = 0;
    let mut j: usize = i;
    while j < v.len()
        invariant
            i <= j <= v@.len(),
            base == 10 || base == 16,
            number_from(v@, i as int, base as int, 0) == number_from(
                v@,
                j as int,
                base as int,
                n as int,
            ),
        decreases v@.len() - j,
    {
        match read_digit(v[j], base) {
            Some(d) => {
                if n > (u64::MAX - d) / base {
                    proof {
                        let m = n as int * base as int + d;
                        assert(m > u64::MAX) by {
                            if base == 10 {
                                assert(m == n * 10 + d);
                            } else {
                                assert(m == n * 16 + d);
                            }
                        }
                        lemma_number_grows(v@, j + 1, base as int, m);
                    }
                    return None;
                }
                assert(n * base + d <= u64::MAX) by {
                    if base == 10 {
                        assert(n * base == n * 10);
                    } else {
                        assert(n * base == n * 16);
                    }
                }
                n = n * base + d;
            },
            None => {
                return Some(n);
            },
        }
        j = j + 1;
    }
    Some(n)
}

// ---------------------------------------------------------------------------
// Parting
// ---------------------------------------------------------------------------

/// The number of the character that a character reference at `i` stands for, as far
/// as it is written as a number or as the joiner's name; zero where there is none.
pub open spec fn referred(s: Seq<char>, i: int) -> int {
    if i + 1 >= s.len() || s[i] != '&' {
        0
    } else if s[i + 1] == '#' {
        if i + 2 < s.len() && (s[i + 2] == 'x' || s[i + 2] == 'X') {
            number_from(s, i + 3, 16, 0)
        } else {
            number_from(s, i + 2, 10, 0)
        }
    } else if i + 4 < s.len() && s[i + 1] == 'z' && s[i + 2] == 'w' && s[i + 3] == 'j' && s[i + 4]
        == ';' {
        0x200d
    } else {
        0
    }
}

/// Whether a clinging character stands at `i`, as it is or as a reference.
pub open spec fn clings_at(s: Seq<char>, i: int) -> bool {
    0 <= i < s.len() && (clinging(s[i] as int) || clinging(referred(s, i)))
}

/// The first `k` characters, each clinging one parted from what stands before it.
pub open spec fn parted_upto(s: Seq<char>, k: int) -> Seq<char>
    decreases k,
{
    if k <= 0 {
        Seq::empty()
    } else if clings_at(s, k - 1) {
        parted_upto(s, k - 1).push(PARTER).push(s[k - 1])
    } else {
        parted_upto(s, k - 1).push(s[k - 1])
    }
}

/// A text with each clinging character parted from what stands before it.
pub open spec fn parted(s: Seq<char>) -> Seq<char> {
    parted_upto(s, s.len() as int)
}

/// Whether every clinging character is parted from what stands before it.
pub open spec fn widths_add_up(s: Seq<char>) -> bool {
    forall|i: int| #[trigger] clings_at(s, i) ==> 0 < i && s[i - 1] == PARTER
}

/// The first `k` characters without what parts them.
pub open spec fn rejoined_upto(s: Seq<char>, k: int) -> Seq<char>
    decreases k,
{
    if k <= 0 {
        Seq::empty()
    } else if s[k - 1] == PARTER {
        rejoined_upto(s, k - 1)
    } else {
        rejoined_upto(s, k - 1).push(s[k - 1])
    }
}

/// A text without what parts its characters.
pub open spec fn rejoined(s: Seq<char>) -> Seq<char> {
    rejoined_upto(s, s.len() as int)
}

fn is_reference(v: &Vec<char>, i: usize) -> (r: bool)
    requires
        i < v@.len(),
    ensures
        r == clinging(referred(v@, i as int)),
{
    let n: usize = v.len();
    if v[i] != '&' || n - i < 2 {
        return false;
    }
    if v[i + 1] != '#' {
        return n - i >= 5 && v[i + 1] == 'z' && v[i + 2] == 'w' && v[i + 3] == 'j' && v[i + 4]
            == ';';
    }
    let code: Option<u64> = if n - i >= 3 && (v[i + 2] == 'x' || v[i + 2] == 'X') {
        read_number(v, i + 3, 16)
    } else {
        read_number(v, i + 2, 10)
    };
    match code {
        Some(c) => is_clinging(c),
        None => false,
    }
}

fn is_clinging_at(v: &Vec<char>, i: usize) -> (r: bool)
    requires
        i < v@.len(),
    ensures
        r == clings_at(v@, i as int),
{
    is_clinging_char(v[i]) || is_reference(v, i)
}

/// Parts each clinging character from what stands before it.
pub fn part(text: &str) -> (r: String)
    ensures
        r@ == parted(text@),
{
    let v = to_chars(text);
    let mut r = String::new();
    let mut i: usize = 0;
    while i < v.len()
        invariant
            v@ == text@,
            i <= v@.len(),
            r@ == parted_upto(text@, i as int),
        decreases v@.len() - i,
    {
        if is_clinging_at(&v, i) {
            r.push(PARTER);
        }
        r.push(v[i]);
        i = i + 1;
    }
    r
}

/// Takes out what parts the characters of a text.
pub fn rejoin(text: &str) -> (r: String)
    ensures
        r@ == rejoined(text@),
{
    let v = to_chars(text);
    let mut r = String::new();
    let mut i: usize = 0;
    while i < v.len()
        invariant
            v@ == text@,
            i <= v@.len(),
            r@ == rejoined_upto(text@, i as int),
        decreases v@.len() - i,
    {
        if v[i] != PARTER {
            r.push(v[i]);
        }
        i = i + 1;
    }
    r
}

// ---------------------------------------------------------------------------
// Laws
// ---------------------------------------------------------------------------

/// The parted text goes on behind its first `k` characters with the next one, or
/// with what parts it and then with it.
proof fn lemma_parted_next(s: Seq<char>, k: int)
    requires
        0 <= k < s.len(),
    ensures
        ({
            let t = parted(s);
            let p = parted_upto(s, k).len() as int;
            if clings_at(s, k) {
                &&& parted_upto(s, k + 1).len() == p + 2
                &&& p + 2 <= t.len()
                &&& t[p] == PARTER
                &&& t[p + 1] == s[k]
            } else {
                &&& parted_upto(s, k + 1).len() == p + 1
                &&& p + 1 <= t.len()
                &&& t[p] == s[k]
            }
        }),
{
    lemma_parted_prefix(s, k + 1, s.len() as int);
}

proof fn lemma_parted_prefix(s: Seq<char>, k: int, m: int)
    requires
        0 <= k <= m <= s.len(),
    ensures
        parted_upto(s, k).len() <= parted_upto(s, m).len(),
        forall|i: int|
            0 <= i < parted_upto(s, k).len() ==> parted_upto(s, m)[i] == parted_upto(s, k)[i],
    decreases m - k,
{
    if k < m {
        lemma_parted_prefix(s, k, m - 1);
    }
}

/// Parting changes no number in the text.
proof fn lemma_parted_number(s: Seq<char>, k: int, base: int, n: int)
    requires
        0 <= k <= s.len(),
    ensures
        number_from(parted(s), parted_upto(s, k).len() as int, base, n) == number_from(
            s,
            k,
            base,
            n,
        ),
    decreases s.len() - k,
{
    if k < s.len() {
        lemma_parted_next(s, k);
        if !clings_at(s, k) {
            if let Some(d) = digit_of(s[k], base) {
                lemma_parted_number(s, k + 1, base, n * base + d);
            }
        }
    }
}

/// Parting changes no reference that it leaves where it is.
proof fn lemma_parted_reference(s: Seq<char>, k: int)
    requires
        0 <= k < s.len(),
        !clings_at(s, k),
    ensures
        referred(parted(s), parted_upto(s, k).len() as int) == referred(s, k),
{
    let t = parted(s);
    let p = parted_upto(s, k).len() as int;
    lemma_parted_next(s, k);
    if s[k] == '&' && k + 1 < s.len() {
        lemma_parted_next(s, k + 1);
        if s[k + 1] == '#' {
            if k + 2 < s.len() {
                lemma_parted_next(s, k + 2);
                if s[k + 2] == 'x' || s[k + 2] == 'X' {
                    lemma_parted_number(s, k + 3, 16, 0);
                } else {
                    lemma_parted_number(s, k + 2, 10, 0);
                }
            } else {
                lemma_parted_number(s, k + 2, 10, 0);
            }
        } else {
            if k + 2 < s.len() {
                lemma_parted_next(s, k + 2);
            }
            if k + 3 < s.len() {
                lemma_parted_next(s, k + 3);
            }
            if k + 4 < s.len() {
                lemma_parted_next(s, k + 4);
            }
        }
    }
}

proof fn lemma_parted_upto_adds_up(s: Seq<char>, k: int)
    requires
        0 <= k <= s.len(),
    ensures
        forall|i: int|
            i < parted_upto(s, k).len() && #[trigger] clings_at(parted(s), i) ==> 0 < i && parted(
                s,
            )[i - 1] == PARTER,
    decreases k,
{
    if k > 0 {
        lemma_parted_upto_adds_up(s, k - 1);
        lemma_parted_next(s, k - 1);
        if !clings_at(s, k - 1) {
            lemma_parted_reference(s, k - 1);
        }
    }
}

/// The widths of a parted text add up.
pub proof fn law_parted_widths_add_up(s: Seq<char>)
    ensures
        widths_add_up(parted(s)),
{
    lemma_parted_upto_adds_up(s, s.len() as int);
}

proof fn lemma_rejoined_upto(s: Seq<char>, k: int)
    requires
        0 <= k <= s.len(),
    ensures
        rejoined_upto(parted(s), parted_upto(s, k).len() as int) == rejoined_upto(s, k),
    decreases k,
{
    if k > 0 {
        lemma_rejoined_upto(s, k - 1);
        lemma_parted_next(s, k - 1);
        let t = parted(s);
        let p = parted_upto(s, k - 1).len() as int;
        if clings_at(s, k - 1) {
            assert(rejoined_upto(t, p + 1) == rejoined_upto(t, p));
        }
    }
}

/// Parting and rejoining gives back a text that nothing parted.
pub proof fn law_parted_text_is_rejoined(s: Seq<char>)
    requires
        !s.contains(PARTER),
    ensures
        rejoined(parted(s)) == s,
{
    lemma_rejoined_upto(s, s.len() as int);
    lemma_nothing_to_rejoin(s, s.len() as int);
    assert(s.take(s.len() as int) =~= s);
}

proof fn lemma_nothing_to_rejoin(s: Seq<char>, k: int)
    requires
        0 <= k <= s.len(),
        !s.contains(PARTER),
    ensures
        rejoined_upto(s, k) == s.take(k),
    decreases k,
{
    if k > 0 {
        lemma_nothing_to_rejoin(s, k - 1);
        assert(s.contains(s[k - 1]));
        assert(s.take(k) =~= s.take(k - 1).push(s[k - 1]));
    } else {
        assert(s.take(0) =~= Seq::empty());
    }
}

} // verus!
