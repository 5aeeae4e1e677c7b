//! Sorting that keeps the order of equal items.

use vstd::prelude::*;
use vstd::multiset::Multiset;

verus! {

broadcast use vstd::seq_lib::group_seq_properties;

/// The first position at or after `i` of an item that comes after `x`, or the
/// number of items.
pub open spec fn place<V>(s: Seq<V>, x: V, le: spec_fn(V, V) -> bool, i: int) -> int
    decreases s.len() - i,
{
    if i >= s.len() || !le(s[i], x) {
        i
    } else {
        place(s, x, le, i + 1)
    }
}

/// The first `k` items in order; equal items keep their order.
pub open spec fn sorted_upto<V>(s: Seq<V>, le: spec_fn(V, V) -> bool, k: int) -> Seq<V>
    decreases k,
{
    if k <= 0 {
        Seq::empty()
    } else {
        let before = sorted_upto(s, le, k - 1);
        before.insert(place(before, s[k - 1], le, 0), s[k - 1])
    }
}

/// The items in order; equal items keep their order.
pub open spec fn sorted<V>(s: Seq<V>, le: spec_fn(V, V) -> bool) -> Seq<V> {
    sorted_upto(s, le, s.len() as int)
}

/// An order in which any two items can be compared.
pub open spec fn total_order<V>(le: spec_fn(V, V) -> bool) -> bool {
    &&& forall|a: V, b: V| #[trigger] le(a, b) || le(b, a)
    &&& forall|a: V, b: V, c: V| #[trigger] le(a, b) && #[trigger] le(b, c) ==> le(a, c)
}

/// Every item comes before those behind it.
pub open spec fn in_order<V>(s: Seq<V>, le: spec_fn(V, V) -> bool) -> bool {
    forall|i: int, j: int| 0 <= i < j < s.len() ==> le(#[trigger] s[i], #[trigger] s[j])
}

proof fn lemma_place<V>(s: Seq<V>, x: V, le: spec_fn(V, V) -> bool, i: int)
    requires
        0 <= i <= s.len(),
    ensures
        i <= place(s, x, le, i) <= s.len(),
        forall|j: int| i <= j < place(s, x, le, i) ==> le(#[trigger] s[j], x),
        place(s, x, le, i) < s.len() ==> !le(s[place(s, x, le, i)], x),
    decreases s.len() - i,
{
    if i < s.len() && le(s[i], x) {
        lemma_place(s, x, le, i + 1);
    }
}

proof fn lemma_sorted_upto<V>(s: Seq<V>, le: spec_fn(V, V) -> bool, k: int)
    requires
        0 <= k <= s.len(),
        total_order(le),
    ensures
        in_order(sorted_upto(s, le, k), le),
        sorted_upto(s, le, k).to_multiset() == s.subrange(0, k).to_multiset(),
        sorted_upto(s, le, k).len() == k,
    decreases k,
{
    if k > 0 {
        lemma_sorted_upto(s, le, k - 1);
        let before = sorted_upto(s, le, k - 1);
        let x = s[k - 1];
        let p = place(before, x, le, 0);
        lemma_place(before, x, le, 0);
        let after = before.insert(p, x);
        assert forall|i: int, j: int| 0 <= i < j < after.len() implies le(
            #[trigger] after[i],
            #[trigger] after[j],
        ) by {
            let bi = if i < p {
                i
            } else {
                i - 1
            };
            let bj = if j < p {
                j
            } else {
                j - 1
            };
            if i == p {
                assert(after[j] == before[j - 1]);
                assert(!le(before[p], x));
                assert(le(x, before[p]));
                if j - 1 > p {
                    assert(le(before[p], before[j - 1]));
                }
            } else if j == p {
                assert(after[i] == before[i]);
            } else {
                assert(after[i] == before[bi]);
                assert(after[j] == before[bj]);
            }
        }
        before.to_multiset_ensures();
        vstd::seq_lib::to_multiset_insert(before, p, x);
        vstd::seq_lib::to_multiset_insert(s.subrange(0, k - 1), k - 1, x);
        assert(s.subrange(0, k) =~= s.subrange(0, k - 1).insert(k - 1, x));
    } else {
        assert(s.subrange(0, 0) =~= Seq::<V>::empty());
    }
}

/// The items that an order puts neither before nor after `x`.
pub open spec fn equals_of<V>(s: Seq<V>, x: V, le: spec_fn(V, V) -> bool) -> Seq<V> {
    s.filter(|y: V| le(x, y) && le(y, x))
}

proof fn lemma_none_kept<V>(s: Seq<V>, pred: spec_fn(V) -> bool)
    requires
        forall|i: int| 0 <= i < s.len() ==> !pred(#[trigger] s[i]),
    ensures
        s.filter(pred) == Seq::<V>::empty(),
    decreases s.len(),
{
    reveal(Seq::filter);
    if s.len() > 0 {
        let t = s.drop_last();
        assert forall|i: int| 0 <= i < t.len() implies !pred(#[trigger] t[i]) by {
            assert(t[i] == s[i]);
        }
        lemma_none_kept(t, pred);
        assert(!pred(s[s.len() - 1]));
    }
}

proof fn lemma_equals_upto<V>(s: Seq<V>, le: spec_fn(V, V) -> bool, k: int, x: V)
    requires
        0 <= k <= s.len(),
        total_order(le),
    ensures
        equals_of(sorted_upto(s, le, k), x, le) == equals_of(s.take(k), x, le),
    decreases k,
{
    let pred = |y: V| le(x, y) && le(y, x);
    if k > 0 {
        lemma_equals_upto(s, le, k - 1, x);
        lemma_sorted_upto(s, le, k - 1);
        let before = sorted_upto(s, le, k - 1);
        let y = s[k - 1];
        let p = place(before, y, le, 0);
        lemma_place(before, y, le, 0);
        let front = before.take(p);
        let back = before.skip(p);
        let one = seq![y];
        assert(before =~= front + back);
        assert(before.insert(p, y) =~= front + one + back);
        assert(s.take(k) =~= s.take(k - 1) + one);
        Seq::filter_distributes_over_add(front, back, pred);
        Seq::filter_distributes_over_add(front, one, pred);
        Seq::filter_distributes_over_add(front + one, back, pred);
        Seq::filter_distributes_over_add(s.take(k - 1), one, pred);
        if pred(y) {
            assert forall|i: int| 0 <= i < back.len() implies !pred(#[trigger] back[i]) by {
                assert(back[i] == before[p + i]);
                assert(!le(before[p], y));
                if i > 0 {
                    assert(le(before[p], before[p + i]));
                }
                if pred(back[i]) {
                    assert(le(back[i], x) && le(x, y));
                    assert(le(back[i], y));
                    if i > 0 {
                        assert(le(before[p], y));
                    }
                }
            }
            lemma_none_kept(back, pred);
            assert(front.filter(pred) + one.filter(pred) + back.filter(pred) =~= front.filter(pred)
                + back.filter(pred) + one.filter(pred));
        } else {
            lemma_none_kept(one, pred);
            assert(front.filter(pred) + one.filter(pred) + back.filter(pred) =~= front.filter(pred)
                + back.filter(pred) + one.filter(pred));
        }
    } else {
        assert(s.take(0) =~= Seq::<V>::empty());
    }
}

/// Sorting puts the items in order, neither loses nor adds any, and leaves equal items
/// in the order they had.
pub proof fn law_sorted<V>(s: Seq<V>, le: spec_fn(V, V) -> bool)
    requires
        total_order(le),
    ensures
        in_order(sorted(s, le), le),
        sorted(s, le).to_multiset() == s.to_multiset(),
        sorted(s, le).len() == s.len(),
        forall|x: V| #[trigger] equals_of(sorted(s, le), x, le) == equals_of(s, x, le),
{
    lemma_sorted_upto(s, le, s.len() as int);
    assert(s.subrange(0, s.len() as int) =~= s);
    assert(s.take(s.len() as int) =~= s);
    assert forall|x: V| #[trigger]
        equals_of(sorted(s, le), x, le) == equals_of(s, x, le) by {
        lemma_equals_upto(s, le, s.len() as int, x);
    }
}

/// Puts the items in order; equal items keep their order.
pub(crate) fn sort_by<T: DeepView, F: Fn(&T, &T) -> bool>(
    v: Vec<T>,
    f: F,
    Ghost(le): Ghost<spec_fn(T::V, T::V) -> bool>,
) -> (r: Vec<T>)
    requires
        forall|a: &T, b: &T| #[trigger] f.requires((a, b)),
        forall|a: &T, b: &T, o: bool|
            #[trigger] f.ensures((a, b), o) ==> o == le(a.deep_view(), b.deep_view()),
    ensures
        r.deep_view() == sorted(v.deep_view(), le),
{
    let ghost vv = v.deep_view();
    let ghost all = v@;
    let mut out: Vec<T> = Vec::new();
    assert(out.deep_view() =~= sorted_upto(vv, le, 0));
    for x in it: v
        invariant
            it.seq() == all,
            vv.len() == all.len(),
            forall|j: int| 0 <= j < all.len() ==> #[trigger] vv[j] == all[j].deep_view(),
            out.deep_view() == sorted_upto(vv, le, it.index() as int),
            forall|a: &T, b: &T| #[trigger] f.requires((a, b)),
            forall|a: &T, b: &T, o: bool|
                #[trigger] f.ensures((a, b), o) ==> o == le(a.deep_view(), b.deep_view()),
    {
        let ghost before = out.deep_view();
        let ghost xv = x.deep_view();
        let mut i: usize = 0;
        let mut found = false;
        while i < out.len() && !found
            invariant
                i <= out@.len(),
                before == out.deep_view(),
                xv == x.deep_view(),
                !found ==> place(before, xv, le, 0) == place(before, xv, le, i as int),
                found ==> place(before, xv, le, 0) == i,
                forall|a: &T, b: &T| #[trigger] f.requires((a, b)),
                forall|a: &T, b: &T, o: bool|
                    #[trigger] f.ensures((a, b), o) ==> o == le(a.deep_view(), b.deep_view()),
            decreases out@.len() - i + (if found {
                0int
            } else {
                1int
            }),
        {
            assert(before[i as int] == out@[i as int].deep_view());
            if f(&out[i], &x) {
                i = i + 1;
            } else {
                found = true;
            }
        }
        out.insert(i, x);
        assert(out.deep_view() =~= before.insert(i as int, xv));
    }
    out
}

// ---------------------------------------------------------------------------
// The order of texts
// ---------------------------------------------------------------------------

/// `a` comes before `b` from position `i` on, or they are equal from there on.
/// Texts are compared character by character; a text comes before its extensions.
pub open spec fn text_le_from(a: Seq<char>, b: Seq<char>, i: int) -> bool
    decreases a.len() - i,
{
    if i >= a.len() {
        true
    } else if i >= b.len() {
        false
    } else if a[i] == b[i] {
        text_le_from(a, b, i + 1)
    } else {
        a[i] <= b[i]
    }
}

/// `a` comes before `b` in the order of texts, or they are equal.
pub open spec fn text_le(a: Seq<char>, b: Seq<char>) -> bool {
    text_le_from(a, b, 0)
}

/// Whether `a` comes before `b` in the order of texts, or they are equal.
pub fn is_text_le(a: &str, b: &str) -> (r: bool)
    ensures
        r == text_le(a@, b@),
{
    let x = crate::text::to_chars(a);
    let y = crate::text::to_chars(b);
    let mut i: usize = 0;
    while i < x.len()
        invariant
            x@ == a@,
            y@ == b@,
            i <= x@.len(),
            text_le(a@, b@) == text_le_from(a@, b@, i as int),
        decreases x@.len() - i,
    {
        if i >= y.len() {
            return false;
        }
        if x[i] != y[i] {
            return x[i] <= y[i];
        }
        i = i + 1;
    }
    true
}

proof fn lemma_text_total(a: Seq<char>, b: Seq<char>, i: int)
    requires
        0 <= i,
    ensures
        text_le_from(a, b, i) || text_le_from(b, a, i),
    decreases a.len() - i,
{
    if i < a.len() && i < b.len() && a[i] == b[i] {
        lemma_text_total(a, b, i + 1);
    }
}

proof fn lemma_text_transitive(a: Seq<char>, b: Seq<char>, c: Seq<char>, i: int)
    requires
        0 <= i,
        text_le_from(a, b, i),
        text_le_from(b, c, i),
    ensures
        text_le_from(a, c, i),
    decreases a.len() - i,
{
    if i < a.len() && i < b.len() && i < c.len() && a[i] == b[i] && b[i] == c[i] {
        lemma_text_transitive(a, b, c, i + 1);
    }
}

proof fn lemma_text_antisymmetric(a: Seq<char>, b: Seq<char>, i: int)
    requires
        0 <= i,
        i <= a.len(),
        i <= b.len(),
        text_le_from(a, b, i),
        text_le_from(b, a, i),
    ensures
        a.len() == b.len(),
        forall|j: int| i <= j < a.len() ==> a[j] == b[j],
    decreases a.len() - i,
{
    if i < a.len() && i < b.len() && a[i] == b[i] {
        lemma_text_antisymmetric(a, b, i + 1);
    }
}

/// Texts that come before each other are equal.
pub proof fn law_text_antisymmetric()
    ensures
        forall|a: Seq<char>, b: Seq<char>|
            #[trigger] text_le(a, b) && #[trigger] text_le(b, a) ==> a == b,
{
    assert forall|a: Seq<char>, b: Seq<char>|
        #[trigger] text_le(a, b) && #[trigger] text_le(b, a) implies a == b by {
        lemma_text_antisymmetric(a, b, 0);
        assert(a =~= b);
    }
}

/// Any two texts can be compared, and the order is transitive.
pub proof fn law_text_order()
    ensures
        forall|a: Seq<char>, b: Seq<char>| #[trigger] text_le(a, b) || text_le(b, a),
        forall|a: Seq<char>, b: Seq<char>, c: Seq<char>|
            #[trigger] text_le(a, b) && #[trigger] text_le(b, c) ==> text_le(a, c),
{
    assert forall|a: Seq<char>, b: Seq<char>| #[trigger] text_le(a, b) || text_le(b, a) by {
        lemma_text_total(a, b, 0);
    }
    assert forall|a: Seq<char>, b: Seq<char>, c: Seq<char>|
        #[trigger] text_le(a, b) && #[trigger] text_le(b, c) implies text_le(a, c) by {
        lemma_text_transitive(a, b, c, 0);
    }
}

} // verus!
