//! How texts are fitted to the width of a terminal.

use vstd::prelude::*;

use crate::compose::{byte_prefix, take_bytes};
use crate::data::{no_items, put};
use crate::text::{byte_len, count_bytes, dec, decimal, rfind, rfind_chars, slice_text, to_chars};

verus! {

broadcast use vstd::seq_lib::group_seq_properties;

/// A character repeated.
pub open spec fn repeated(c: char, n: nat) -> Seq<char> {
    Seq::new(n, |i: int| c)
}

/// A character repeated.
pub fn repeat(c: char, n: usize) -> (r: String)
    ensures
        r@ == repeated(c, n as nat),
{
    let mut s = String::new();
    let mut i: usize = 0;
    while i < n
        invariant
            i <= n,
            s@ == repeated(c, i as nat),
        decreases n - i,
    {
        s.push(c);
        i = i + 1;
        assert(s@ =~= repeated(c, i as nat));
    }
    s
}

/// A text with spaces behind it, so that it has at least `n` characters.
pub open spec fn padded(s: Seq<char>, n: nat) -> Seq<char> {
    if s.len() < n {
        s + repeated(' ', (n - s.len()) as nat)
    } else {
        s
    }
}

/// A text with spaces behind it, so that it has at least `n` characters.
pub fn pad(s: &str, n: usize) -> (r: String)
    ensures
        r@ == padded(s@, n as nat),
{
    let v = to_chars(s);
    let mut r = s.to_owned();
    if v.len() < n {
        r.append(repeat(' ', n - v.len()).as_str());
    }
    r
}

/// A text cut so that it takes at most `max` bytes, with dots where it was cut if
/// there is room for them.
pub open spec fn truncated(s: Seq<char>, max: nat) -> Seq<char> {
    if byte_len(s) <= max {
        s
    } else if max <= 3 {
        if s.len() <= max {
            s
        } else {
            s.subrange(0, max as int)
        }
    } else {
        byte_prefix(s, (max - 3) as nat) + "..."@
    }
}

/// A text cut so that it takes at most `max` bytes.
pub fn truncate(s: &str, max: usize) -> (r: String)
    ensures
        r@ == truncated(s@, max as nat),
{
    if count_bytes(s) <= max {
        return s.to_owned();
    }
    if max <= 3 {
        let v = to_chars(s);
        if v.len() <= max {
            return s.to_owned();
        }
        return slice_text(&v, 0, max);
    }
    let mut r = take_bytes(s, max - 3);
    r.append("...");
    r
}

/// The lines of a text from position `i` on, each of at most `width` characters.
/// A line ends at its last space if it has one, which is then left out.
pub open spec fn wrapped_from(s: Seq<char>, width: nat, i: int) -> Seq<Seq<char>>
    decreases s.len() - i,
    when 0 <= i <= s.len() && width > 0
    via wrapped_from_decreases
{
    if i >= s.len() {
        Seq::empty()
    } else if s.len() - i <= width {
        seq![s.subrange(i, s.len() as int)]
    } else {
        let segment = s.subrange(i, i + width);
        match rfind(segment, seq![' ']) {
            Some(p) => seq![s.subrange(i, i + p)] + wrapped_from(s, width, i + p + 1),
            None => seq![segment] + wrapped_from(s, width, i + width),
        }
    }
}

#[via_fn]
proof fn wrapped_from_decreases(s: Seq<char>, width: nat, i: int) {
    if 0 <= i < s.len() && s.len() - i > width {
        let segment = s.subrange(i, i + width);
        lemma_rfind_bound(segment, seq![' '], segment.len() - 1);
    }
}

proof fn lemma_rfind_bound(s: Seq<char>, p: Seq<char>, i: int)
    requires
        p.len() == 1,
        i < s.len(),
    ensures
        match crate::text::rfind_from(s, p, i) {
            Some(k) => 0 <= k < s.len(),
            None => true,
        },
    decreases i + 1,
{
    if i >= 0 && !crate::text::occurs_at(s, p, i) {
        lemma_rfind_bound(s, p, i - 1);
    }
}

/// The lines that a text is broken into at a width.
pub open spec fn wrapped(s: Seq<char>, width: nat) -> Seq<Seq<char>> {
    if width == 0 || s.len() <= width {
        seq![s]
    } else {
        wrapped_from(s, width, 0)
    }
}

/// The lines that a text is broken into at a width, at spaces where there are any.
pub fn wrap_line(s: &str, max_width: usize) -> (r: Vec<String>)
    ensures
        r.deep_view() == wrapped(s@, max_width as nat),
{
    let v = to_chars(s);
    let mut out: Vec<String> = no_items();
    if max_width == 0 || v.len() <= max_width {
        put(&mut out, s.to_owned());
        assert(out.deep_view() =~= seq![s@]);
        return out;
    }
    let mut space: Vec<char> = Vec::new();
    space.push(' ');
    assert(space@ =~= seq![' ']);
    let ghost w = max_width as nat;
    let mut i: usize = 0;
    assert(out.deep_view() + wrapped_from(s@, w, 0) =~= wrapped_from(s@, w, 0));
    while v.len() - i > max_width
        invariant
            v@ == s@,
            space@ == seq![' '],
            w == max_width,
            max_width > 0,
            i <= v@.len(),
            out.deep_view() + wrapped_from(s@, w, i as int) == wrapped_from(s@, w, 0),
        decreases v@.len() - i,
    {
        let ghost before = out.deep_view();
        let segment = slice_text(&v, i, i + max_width);
        let sv = to_chars(segment.as_str());
        let ghost seg = s@.subrange(i as int, i + max_width);
        assert(sv@ == seg);
        match rfind_chars(&sv, &space) {
            Some(p) => {
                let line = slice_text(&v, i, i + p);
                put(&mut out, line);
                proof {
                    let rest = wrapped_from(s@, w, i + p + 1);
                    assert(wrapped_from(s@, w, i as int) == seq![line@] + rest);
                    assert(before.push(line@) + rest =~= before + (seq![line@] + rest));
                }
                i = i + p + 1;
            },
            None => {
                put(&mut out, segment);
                proof {
                    let rest = wrapped_from(s@, w, i + max_width);
                    assert(wrapped_from(s@, w, i as int) == seq![seg] + rest);
                    assert(before.push(seg) + rest =~= before + (seq![seg] + rest));
                }
                i = i + max_width;
            },
        }
    }
    if i < v.len() {
        let ghost before = out.deep_view();
        let line = slice_text(&v, i, v.len());
        put(&mut out, line);
        assert(out.deep_view() =~= before + seq![line@]);
    } else {
        assert(out.deep_view() + Seq::<Seq<char>>::empty() =~= out.deep_view());
    }
    out
}

proof fn lemma_wrapped_width(s: Seq<char>, width: nat, i: int)
    requires
        0 <= i <= s.len(),
        width > 0,
    ensures
        forall|k: int|
            0 <= k < wrapped_from(s, width, i).len() ==> (#[trigger] wrapped_from(
                s,
                width,
                i,
            )[k]).len() <= width,
    decreases s.len() - i,
{
    if i < s.len() && s.len() - i > width {
        let segment = s.subrange(i, i + width);
        lemma_rfind_bound(segment, seq![' '], segment.len() - 1);
        match rfind(segment, seq![' ']) {
            Some(p) => {
                let rest = wrapped_from(s, width, i + p + 1);
                lemma_wrapped_width(s, width, i + p + 1);
                let head = s.subrange(i, i + p);
                assert(wrapped_from(s, width, i) == seq![head] + rest);
                assert forall|k: int| 0 <= k < (seq![head] + rest).len() implies (#[trigger] (
                seq![head] + rest)[k]).len() <= width by {
                    if k > 0 {
                        assert((seq![head] + rest)[k] == rest[k - 1]);
                    }
                }
            },
            None => {
                let rest = wrapped_from(s, width, i + width);
                lemma_wrapped_width(s, width, i + width);
                assert(wrapped_from(s, width, i) == seq![segment] + rest);
                assert forall|k: int| 0 <= k < (seq![segment] + rest).len() implies (#[trigger] (
                seq![segment] + rest)[k]).len() <= width by {
                    if k > 0 {
                        assert((seq![segment] + rest)[k] == rest[k - 1]);
                    }
                }
            },
        }
    }
}

/// No line that a text is broken into is wider than the width.
pub proof fn law_wrapped_lines_fit(s: Seq<char>, width: nat)
    requires
        width > 0,
    ensures
        forall|k: int|
            0 <= k < wrapped(s, width).len() ==> (#[trigger] wrapped(s, width)[k]).len() <= width,
{
    lemma_wrapped_width(s, width, 0);
}

/// The distance of neighbouring numbers near `n` in double precision.
pub open spec fn double_spacing(n: nat) -> nat {
    if n < 0x20_0000_0000_0000 {
        1
    } else if n < 0x40_0000_0000_0000 {
        2
    } else if n < 0x80_0000_0000_0000 {
        4
    } else if n < 0x100_0000_0000_0000 {
        8
    } else if n < 0x200_0000_0000_0000 {
        16
    } else if n < 0x400_0000_0000_0000 {
        32
    } else if n < 0x800_0000_0000_0000 {
        64
    } else if n < 0x1000_0000_0000_0000 {
        128
    } else if n < 0x2000_0000_0000_0000 {
        256
    } else if n < 0x4000_0000_0000_0000 {
        512
    } else if n < 0x8000_0000_0000_0000 {
        1024
    } else {
        2048
    }
}

/// The multiple of `d` nearest to `n`, divided by `d`; of two that are equally
/// near, the even one.
pub open spec fn nearest(n: nat, d: nat) -> nat {
    let q = n / d;
    let r = n % d;
    if 2 * r > d || (2 * r == d && q % 2 == 1) {
        q + 1
    } else {
        q
    }
}

/// A number of units with one decimal, rounded to the nearest; `n` is first
/// rounded as a number in double precision is.
pub open spec fn one_decimal(n: nat, unit: nat) -> Seq<char> {
    let tenths = nearest(10 * (nearest(n, double_spacing(n)) * double_spacing(n)), unit);
    decimal(tenths / 10) + "."@ + decimal(tenths % 10)
}

/// How a size is shown.
pub open spec fn shown_size(bytes: nat) -> Seq<char> {
    if bytes < 1024 {
        decimal(bytes) + " B"@
    } else if bytes < 1048576 {
        one_decimal(bytes, 1024) + " KB"@
    } else {
        one_decimal(bytes, 1048576) + " MB"@
    }
}

fn spacing(n: u64) -> (r: u64)
    ensures
        r == double_spacing(n as nat),
        1 <= r <= 2048,
{
    if n < 0x20_0000_0000_0000 {
        1
    } else if n < 0x40_0000_0000_0000 {
        2
    } else if n < 0x80_0000_0000_0000 {
        4
    } else if n < 0x100_0000_0000_0000 {
        8
    } else if n < 0x200_0000_0000_0000 {
        16
    } else if n < 0x400_0000_0000_0000 {
        32
    } else if n < 0x800_0000_0000_0000 {
        64
    } else if n < 0x1000_0000_0000_0000 {
        128
    } else if n < 0x2000_0000_0000_0000 {
        256
    } else if n < 0x4000_0000_0000_0000 {
        512
    } else if n < 0x8000_0000_0000_0000 {
        1024
    } else {
        2048
    }
}

fn round_to(n: u128, d: u128) -> (r: u128)
    requires
        1 <= d <= 1048576,
        n <= 0xffff_ffff_ffff_ffff_ffff,
    ensures
        r == nearest(n as nat, d as nat),
        r <= n + 1,
        r * d <= n + d,
{
    let q: u128 = n / d;
    let r: u128 = n % d;
    assert(q <= n && q * d <= n && (q + 1) * d <= n + d) by (nonlinear_arith)
        requires
            q == n / d,
            d >= 1,
    ;
    if 2 * r > d || (2 * r == d && q % 2 == 1) {
        q + 1
    } else {
        q
    }
}

fn show_one_decimal(n: u64, unit: u64) -> (r: String)
    requires
        1024 <= unit <= 1048576,
    ensures
        r@ == one_decimal(n as nat, unit as nat),
{
    let d: u64 = spacing(n);
    let rounded: u128 = round_to(n as u128, d as u128);
    assert(rounded * d <= n + d);
    let value: u128 = rounded * d as u128;
    let tenths: u128 = round_to(10 * value, unit as u128);
    assert(tenths <= 10 * value / 1024 + 1) by {
        let x: int = 10 * value;
        let u = unit as int;
        assert(x / u <= x / 1024) by (nonlinear_arith)
            requires
                x >= 0,
                u >= 1024,
        ;
    }
    let whole: u64 = (tenths / 10) as u64;
    let rest: u64 = (tenths % 10) as u64;
    let mut s = dec(whole);
    s.append(".");
    s.append(dec(rest).as_str());
    s
}

/// How a size is shown.
pub fn format_size(bytes: u64) -> (r: String)
    ensures
        r@ == shown_size(bytes as nat),
{
    if bytes < 1024 {
        let mut s = dec(bytes);
        s.append(" B");
        s
    } else if bytes < 1048576 {
        let mut s = show_one_decimal(bytes, 1024);
        s.append(" KB");
        s
    } else {
        let mut s = show_one_decimal(bytes, 1048576);
        s.append(" MB");
        s
    }
}

} // verus!
