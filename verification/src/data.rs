//! Values that are copied by contents, and maps keyed by text.

use vstd::prelude::*;

use crate::text::same;

verus! {

broadcast use vstd::seq_lib::group_seq_properties;

/// Values that can be copied so that the copy has the same contents.
pub trait Dup: DeepView + Sized {
    /// A copy with the same contents.
    fn dup(&self) -> (r: Self)
        ensures
            r.deep_view() == self.deep_view(),
    ;
}

impl Dup for String {
    fn dup(&self) -> (r: String) {
        self.clone()
    }
}

impl Dup for bool {
    fn dup(&self) -> (r: bool) {
        *self
    }
}

impl Dup for u32 {
    fn dup(&self) -> (r: u32) {
        *self
    }
}

impl Dup for u64 {
    fn dup(&self) -> (r: u64) {
        *self
    }
}

impl Dup for u8 {
    fn dup(&self) -> (r: u8) {
        *self
    }
}

impl Dup for usize {
    fn dup(&self) -> (r: usize) {
        *self
    }
}

impl Dup for () {
    fn dup(&self) -> (r: ()) {
        ()
    }
}

impl<T: Dup> Dup for Option<T> {
    fn dup(&self) -> (r: Option<T>) {
        match self {
            Some(v) => Some(v.dup()),
            None => None,
        }
    }
}

impl<A: Dup, B: Dup> Dup for (A, B) {
    fn dup(&self) -> (r: (A, B)) {
        (self.0.dup(), self.1.dup())
    }
}

impl<T: Dup> Dup for Vec<T> {
    fn dup(&self) -> (r: Vec<T>) {
        let mut r: Vec<T> = Vec::new();
        let mut i: usize = 0;
        while i < self.len()
            invariant
                i <= self@.len(),
                r@.len() == i,
                forall|j: int| 0 <= j < i ==> #[trigger] r@[j].deep_view() == self@[j].deep_view(),
            decreases self@.len() - i,
        {
            r.push(self[i].dup());
            i = i + 1;
        }
        assert(r.deep_view() =~= self.deep_view());
        r
    }
}

/// The contents of a result.
pub open spec fn result_view<T: DeepView, E: DeepView>(r: Result<T, E>) -> Result<T::V, E::V> {
    match r {
        Ok(v) => Ok(v.deep_view()),
        Err(e) => Err(e.deep_view()),
    }
}

/// A list without items.
pub fn no_items<T: DeepView>() -> (v: Vec<T>)
    ensures
        v.deep_view() == Seq::<T::V>::empty(),
        v@ == Seq::<T>::empty(),
{
    let v: Vec<T> = Vec::new();
    assert(v.deep_view() =~= Seq::<T::V>::empty());
    v
}

/// Puts an item at the end of a list.
pub fn put<T: DeepView>(v: &mut Vec<T>, x: T)
    ensures
        final(v).deep_view() == old(v).deep_view().push(x.deep_view()),
        final(v)@ == old(v)@.push(x),
{
    let ghost before = v.deep_view();
    let ghost xv = x.deep_view();
    v.push(x);
    assert(v.deep_view() =~= before.push(xv));
}

/// The item at a position of a list.
pub fn at<T: DeepView>(v: &[T], i: usize) -> (r: &T)
    requires
        i < v@.len(),
    ensures
        *r == v@[i as int],
        r.deep_view() == v.deep_view()[i as int],
{
    &v[i]
}

/// The items of one list followed by those of another.
pub fn put_all<T: DeepView>(v: &mut Vec<T>, more: Vec<T>)
    ensures
        final(v).deep_view() == old(v).deep_view() + more.deep_view(),
{
    let ghost before = v.deep_view();
    let mut more = more;
    let ghost mv = more.deep_view();
    v.append(&mut more);
    assert(v.deep_view() =~= before + mv);
}

// ---------------------------------------------------------------------------
// Maps keyed by text
// ---------------------------------------------------------------------------

/// The first position at or after `i` whose key is `k`, or the number of entries.
pub open spec fn key_index<V>(s: Seq<(Seq<char>, V)>, k: Seq<char>, i: int) -> int
    decreases s.len() - i,
{
    if i >= s.len() {
        s.len() as int
    } else if s[i].0 == k {
        i
    } else {
        key_index(s, k, i + 1)
    }
}

/// The value under a key.
pub open spec fn lookup<V>(s: Seq<(Seq<char>, V)>, k: Seq<char>) -> Option<V> {
    let i = key_index(s, k, 0);
    if i < s.len() {
        Some(s[i].1)
    } else {
        None
    }
}

/// The entries once `v` stands under `k`.
pub open spec fn with_entry<V>(s: Seq<(Seq<char>, V)>, k: Seq<char>, v: V) -> Seq<(Seq<char>, V)> {
    let i = key_index(s, k, 0);
    if i < s.len() {
        s.update(i, (k, v))
    } else {
        s.push((k, v))
    }
}

/// The first `n` entries without those under `k`.
pub open spec fn without_key_upto<V>(s: Seq<(Seq<char>, V)>, k: Seq<char>, n: int) -> Seq<
    (Seq<char>, V),
>
    decreases n,
{
    if n <= 0 {
        Seq::empty()
    } else if s[n - 1].0 == k {
        without_key_upto(s, k, n - 1)
    } else {
        without_key_upto(s, k, n - 1).push(s[n - 1])
    }
}

/// The entries once nothing stands under `k`.
pub open spec fn without_key<V>(s: Seq<(Seq<char>, V)>, k: Seq<char>) -> Seq<(Seq<char>, V)> {
    without_key_upto(s, k, s.len() as int)
}

/// No key occurs twice.
pub open spec fn keys_distinct<V>(s: Seq<(Seq<char>, V)>) -> bool {
    forall|i: int, j: int| 0 <= i < j < s.len() ==> s[i].0 != s[j].0
}

/// What `key_index` gives is the first position of the key.
pub proof fn lemma_key_index<V>(s: Seq<(Seq<char>, V)>, k: Seq<char>, i: int)
    requires
        0 <= i <= s.len(),
    ensures
        i <= key_index(s, k, i) <= s.len(),
        key_index(s, k, i) < s.len() ==> s[key_index(s, k, i)].0 == k,
        forall|j: int| i <= j < key_index(s, k, i) ==> s[j].0 != k,
    decreases s.len() - i,
{
    if i < s.len() && s[i].0 != k {
        lemma_key_index(s, k, i + 1);
    }
}

proof fn lemma_key_index_is<V>(s: Seq<(Seq<char>, V)>, k: Seq<char>, i: int, at: int)
    requires
        0 <= i <= at <= s.len(),
        at < s.len() ==> s[at].0 == k,
        forall|j: int| i <= j < at ==> s[j].0 != k,
    ensures
        key_index(s, k, i) == at,
    decreases at - i,
{
    if i < at {
        lemma_key_index_is(s, k, i + 1, at);
    }
}

/// A key is present exactly when some entry carries it.
pub proof fn lemma_lookup_present<V>(s: Seq<(Seq<char>, V)>, k: Seq<char>)
    ensures
        lookup(s, k) is Some <==> exists|i: int| 0 <= i < s.len() && #[trigger] s[i].0 == k,
{
    lemma_key_index(s, k, 0);
}

/// After an entry is set, its key gives the value and every other key what it gave.
pub proof fn lemma_lookup_with_entry<V>(s: Seq<(Seq<char>, V)>, k: Seq<char>, v: V, q: Seq<char>)
    ensures
        lookup(with_entry(s, k, v), q) == (if q == k {
            Some(v)
        } else {
            lookup(s, q)
        }),
        keys_distinct(s) ==> keys_distinct(with_entry(s, k, v)),
{
    let t = with_entry(s, k, v);
    lemma_key_index(s, k, 0);
    lemma_key_index(s, q, 0);
    let i = key_index(s, k, 0);
    if q == k {
        lemma_key_index_is(t, q, 0, i);
    } else {
        let j = key_index(s, q, 0);
        if j < s.len() {
            lemma_key_index_is(t, q, 0, j);
        } else {
            lemma_key_index_is(t, q, 0, t.len() as int);
        }
    }
}

proof fn lemma_without_key_upto<V>(s: Seq<(Seq<char>, V)>, k: Seq<char>, q: Seq<char>, n: int)
    requires
        0 <= n <= s.len(),
    ensures
        without_key_upto(s, k, n).len() <= n,
        forall|j: int|
            0 <= j < without_key_upto(s, k, n).len() ==> (#[trigger] without_key_upto(s, k, n)[j]).0
                != k,
        q != k ==> ({
            let t = without_key_upto(s, k, n);
            let i = key_index(t, q, 0);
            let m = key_index(s, q, 0);
            &&& (m >= n ==> i == t.len())
            &&& (m < n ==> i < t.len() && t[i] == s[m])
        }),
    decreases n,
{
    if n > 0 {
        lemma_without_key_upto(s, k, q, n - 1);
        lemma_key_index(s, q, 0);
        let t = without_key_upto(s, k, n - 1);
        lemma_key_index(t, q, 0);
        if s[n - 1].0 != k && q != k {
            let u = t.push(s[n - 1]);
            let m = key_index(s, q, 0);
            if m < n - 1 {
                lemma_key_index_is(u, q, 0, key_index(t, q, 0));
            } else if m == n - 1 {
                lemma_key_index_is(u, q, 0, t.len() as int);
            } else {
                lemma_key_index_is(u, q, 0, u.len() as int);
            }
        } else if q != k {
            let m = key_index(s, q, 0);
            assert(m != n - 1);
        }
    } else {
        lemma_key_index(s, q, 0);
    }
}

/// After a key is removed it gives nothing, and every other key what it gave.
pub proof fn lemma_lookup_without_key<V>(s: Seq<(Seq<char>, V)>, k: Seq<char>, q: Seq<char>)
    ensures
        lookup(without_key(s, k), q) == (if q == k {
            None
        } else {
            lookup(s, q)
        }),
{
    lemma_without_key_upto(s, k, q, s.len() as int);
    lemma_key_index(s, q, 0);
    let t = without_key(s, k);
    lemma_key_index(t, q, 0);
}

// ---------------------------------------------------------------------------
// Lists keyed by number
// ---------------------------------------------------------------------------

/// The first position at or after `i` whose number is `k`, or the number of
/// entries.
pub open spec fn num_index<V>(s: Seq<(u64, V)>, k: u64, i: int) -> int
    decreases s.len() - i,
{
    if i >= s.len() {
        s.len() as int
    } else if s[i].0 == k {
        i
    } else {
        num_index(s, k, i + 1)
    }
}

/// The value under a number.
pub open spec fn num_lookup<V>(s: Seq<(u64, V)>, k: u64) -> Option<V> {
    let i = num_index(s, k, 0);
    if i < s.len() {
        Some(s[i].1)
    } else {
        None
    }
}

/// The entries once `v` stands under `k`.
pub open spec fn num_with<V>(s: Seq<(u64, V)>, k: u64, v: V) -> Seq<(u64, V)> {
    let i = num_index(s, k, 0);
    if i < s.len() {
        s.update(i, (k, v))
    } else {
        s.push((k, v))
    }
}

/// The entries once the first under `k` is taken out.
pub open spec fn num_without<V>(s: Seq<(u64, V)>, k: u64) -> Seq<(u64, V)> {
    let i = num_index(s, k, 0);
    if i < s.len() {
        s.remove(i)
    } else {
        s
    }
}

fn num_position<V: DeepView>(v: &Vec<(u64, V)>, k: u64) -> (r: usize)
    ensures
        r == num_index(v.deep_view(), k, 0),
        r <= v@.len(),
{
    let mut i: usize = 0;
    while i < v.len()
        invariant
            i <= v@.len(),
            num_index(v.deep_view(), k, 0) == num_index(v.deep_view(), k, i as int),
        decreases v@.len() - i,
    {
        assert(v.deep_view()[i as int].0 == v@[i as int].0);
        if v[i].0 == k {
            return i;
        }
        i = i + 1;
    }
    i
}

/// Puts a value under a number, in place of the one there.
pub fn num_put<V: DeepView>(v: &mut Vec<(u64, V)>, k: u64, x: V)
    ensures
        final(v).deep_view() == num_with(old(v).deep_view(), k, x.deep_view()),
{
    let ghost before = v.deep_view();
    let ghost xv = x.deep_view();
    let i: usize = num_position(v, k);
    if i < v.len() {
        v.set(i, (k, x));
        assert(v.deep_view() =~= before.update(i as int, (k, xv)));
    } else {
        v.push((k, x));
        assert(v.deep_view() =~= before.push((k, xv)));
    }
}

/// Takes out the value under a number.
pub fn num_take<V: DeepView>(v: &mut Vec<(u64, V)>, k: u64) -> (r: Option<V>)
    ensures
        r.deep_view() == num_lookup(old(v).deep_view(), k),
        final(v).deep_view() == num_without(old(v).deep_view(), k),
{
    let ghost before = v.deep_view();
    let i: usize = num_position(v, k);
    if i < v.len() {
        assert(before[i as int].1 == v@[i as int].1.deep_view());
        let e = v.remove(i);
        assert(v.deep_view() =~= before.remove(i as int));
        Some(e.1)
    } else {
        None
    }
}

/// Whether the numbers of entries are distinct and below the next one to be given.
pub open spec fn numbers_ok<V>(s: Seq<(u64, V)>, next: u64) -> bool {
    &&& forall|i: int| 0 <= i < s.len() ==> (#[trigger] s[i]).0 < next
    &&& numbers_distinct(s)
}

/// Whether no two entries stand under the same number.
pub open spec fn numbers_distinct<V>(s: Seq<(u64, V)>) -> bool {
    forall|i: int, j: int| 0 <= i < j < s.len() ==> (#[trigger] s[i]).0 != (#[trigger] s[j]).0
}

/// The next number stands under nothing yet, and an entry under it keeps the numbers
/// distinct and below the one after it.
pub broadcast proof fn lemma_number_given<V>(s: Seq<(u64, V)>, next: u64, v: V)
    requires
        numbers_ok(s, next),
        next < u64::MAX,
    ensures
        num_lookup(s, next) is None,
        #[trigger] num_with(s, next, v) == s.push((next, v)),
        numbers_ok(num_with(s, next, v), (next + 1) as u64),
{
    lemma_num_absent(s, next, 0);
}

/// Entries that are taken out leave the numbers distinct.
pub broadcast proof fn lemma_number_taken<V>(s: Seq<(u64, V)>, next: u64, k: u64)
    requires
        #[trigger] numbers_ok(s, next),
    ensures
        numbers_ok(#[trigger] num_without(s, k), next),
{
    lemma_num_absent(s, k, 0);
}

/// What was put under a number is taken out again as it was, and nothing is left under
/// that number; under a new number it leaves the entries as they were.
pub proof fn law_num_put_then_take<V>(s: Seq<(u64, V)>, k: u64, v: V)
    requires
        numbers_distinct(s),
    ensures
        numbers_distinct(num_with(s, k, v)),
        num_lookup(num_with(s, k, v), k) == Some(v),
        num_lookup(num_without(num_with(s, k, v), k), k) is None,
        num_lookup(s, k) is None ==> num_without(num_with(s, k, v), k) == s,
{
    let t = num_with(s, k, v);
    let u = num_without(t, k);
    lemma_num_absent(s, k, 0);
    lemma_num_absent(t, k, 0);
    lemma_num_absent(u, k, 0);
    if num_index(s, k, 0) < s.len() {
        assert(t[num_index(s, k, 0)].0 == k);
    } else {
        lemma_num_at_end(s, k, v, 0);
        assert(t.remove(s.len() as int) =~= s);
    }
}

/// Entries keep their distinct numbers when one is put, and when it is taken out again.
pub broadcast proof fn lemma_numbers_stay_distinct<V>(s: Seq<(u64, V)>, k: u64, v: V)
    requires
        numbers_distinct(s),
    ensures
        numbers_distinct(#[trigger] num_with(s, k, v)),
        numbers_distinct(num_without(num_with(s, k, v), k)),
{
    law_num_put_then_take(s, k, v);
    lemma_taken_stay_distinct(num_with(s, k, v), k);
}

/// Entries keep their distinct numbers when one is taken out.
pub proof fn lemma_taken_stay_distinct<V>(s: Seq<(u64, V)>, k: u64)
    requires
        numbers_distinct(s),
    ensures
        numbers_distinct(num_without(s, k)),
{
    lemma_num_absent(s, k, 0);
}

proof fn lemma_num_absent<V>(s: Seq<(u64, V)>, k: u64, i: int)
    requires
        0 <= i <= s.len(),
    ensures
        i <= num_index(s, k, i) <= s.len(),
        num_index(s, k, i) < s.len() ==> s[num_index(s, k, i)].0 == k,
        forall|j: int| i <= j < num_index(s, k, i) ==> (#[trigger] s[j]).0 != k,
    decreases s.len() - i,
{
    if i < s.len() && s[i].0 != k {
        lemma_num_absent(s, k, i + 1);
    }
}

proof fn lemma_num_at_end<V>(s: Seq<(u64, V)>, k: u64, v: V, i: int)
    requires
        0 <= i <= s.len(),
        num_index(s, k, i) == s.len(),
    ensures
        num_index(s.push((k, v)), k, i) == s.len(),
    decreases s.len() - i,
{
    if i < s.len() {
        assert(s.push((k, v))[i] == s[i]);
        if s[i].0 != k {
            lemma_num_at_end(s, k, v, i + 1);
        }
    }
}

/// A map from texts to values, whose entries keep the order in which their keys
/// came first.
#[derive(Debug)]
pub struct StrMap<V> {
    entries: Vec<(String, V)>,
}

impl<V: DeepView> DeepView for StrMap<V> {
    type V = Seq<(Seq<char>, V::V)>;

    closed spec fn deep_view(&self) -> Self::V {
        self.entries.deep_view()
    }
}

impl<V: DeepView> StrMap<V> {
    /// A map without entries.
    pub fn new() -> (r: StrMap<V>)
        ensures
            r.deep_view() == Seq::<(Seq<char>, V::V)>::empty(),
    {
        let r = StrMap { entries: Vec::new() };
        assert(r.deep_view() =~= Seq::<(Seq<char>, V::V)>::empty());
        r
    }

    /// The number of entries.
    pub fn len(&self) -> (n: usize)
        ensures
            n == self.deep_view().len(),
    {
        self.entries.len()
    }

    /// Whether there are no entries.
    pub fn is_empty(&self) -> (r: bool)
        ensures
            r == (self.deep_view().len() == 0),
    {
        self.entries.len() == 0
    }

    fn position(&self, k: &str) -> (n: usize)
        ensures
            n == key_index(self.deep_view(), k@, 0),
            n <= self.entries@.len(),
    {
        let mut i: usize = 0;
        while i < self.entries.len()
            invariant
                i <= self.entries@.len(),
                key_index(self.deep_view(), k@, 0) == key_index(self.deep_view(), k@, i as int),
            decreases self.entries@.len() - i,
        {
            assert(self.deep_view()[i as int].0 == self.entries@[i as int].0@);
            if same(self.entries[i].0.as_str(), k) {
                return i;
            }
            i = i + 1;
        }
        i
    }

    /// The value under a key.
    pub fn get(&self, k: &str) -> (r: Option<&V>)
        ensures
            match r {
                Some(v) => lookup(self.deep_view(), k@) == Some(v.deep_view()),
                None => lookup(self.deep_view(), k@) is None,
            },
    {
        let i = self.position(k);
        if i < self.entries.len() {
            assert(self.deep_view()[i as int].1 == self.entries@[i as int].1.deep_view());
            Some(&self.entries[i].1)
        } else {
            None
        }
    }

    /// Whether something stands under a key.
    pub fn contains_key(&self, k: &str) -> (r: bool)
        ensures
            r == lookup(self.deep_view(), k@) is Some,
    {
        let i = self.position(k);
        i < self.entries.len()
    }

    /// Puts a value under a key, in place of the one there.
    pub fn insert(&mut self, k: String, v: V)
        ensures
            final(self).deep_view() == with_entry(old(self).deep_view(), k@, v.deep_view()),
    {
        let i = self.position(k.as_str());
        let ghost before = self.deep_view();
        let ghost kv = (k@, v.deep_view());
        if i < self.entries.len() {
            self.entries.set(i, (k, v));
            assert(self.deep_view() =~= before.update(i as int, kv));
        } else {
            self.entries.push((k, v));
            assert(self.deep_view() =~= before.push(kv));
        }
    }

    /// Removes a key with its value.
    pub fn remove(&mut self, k: &str)
        ensures
            final(self).deep_view() == without_key(old(self).deep_view(), k@),
    {
        let ghost before = self.deep_view();
        let mut kept: Vec<(String, V)> = Vec::new();
        let mut rest: Vec<(String, V)> = Vec::new();
        std::mem::swap(&mut self.entries, &mut rest);
        let ghost n = rest@.len();
        // `rest` is taken apart from its front by reversing it first.
        let mut reversed: Vec<(String, V)> = Vec::new();
        let ghost all = rest@;
        while rest.len() > 0
            invariant
                rest@.len() + reversed@.len() == n,
                n == all.len(),
                rest@ == all.subrange(0, rest@.len() as int),
                forall|j: int|
                    0 <= j < reversed@.len() ==> #[trigger] reversed@[j] == all[n - 1 - j],
            decreases rest@.len(),
        {
            match rest.pop() {
                Some(e) => {
                    reversed.push(e);
                },
                None => {},
            }
        }
        let ghost mut done: int = 0;
        assert(kept.deep_view() =~= without_key_upto(before, k@, 0));
        assert(before.len() == n);
        assert forall|j: int| 0 <= j < n implies #[trigger] before[j] == all[j].deep_view() by {}
        while reversed.len() > 0
            invariant
                done + reversed@.len() == n,
                0 <= done <= n,
                n == all.len(),
                before.len() == n,
                forall|j: int| 0 <= j < n ==> #[trigger] before[j] == all[j].deep_view(),
                forall|j: int|
                    0 <= j < reversed@.len() ==> #[trigger] reversed@[j] == all[n - 1 - j],
                kept.deep_view() == without_key_upto(before, k@, done),
            decreases reversed@.len(),
        {
            let ghost last = reversed@[reversed@.len() - 1];
            match reversed.pop() {
                Some(e) => {
                    assert(e == all[done]);
                    assert(before[done] == e.deep_view());
                    if !same(e.0.as_str(), k) {
                        let ghost b = kept.deep_view();
                        kept.push(e);
                        assert(kept.deep_view() =~= b.push(before[done]));
                    }
                    proof {
                        done = done + 1;
                    }
                },
                None => {},
            }
        }
        self.entries = kept;
    }

    /// The key of the entry at a position.
    pub fn key_at(&self, i: usize) -> (r: &str)
        requires
            i < self.deep_view().len(),
        ensures
            r@ == self.deep_view()[i as int].0,
    {
        self.entries[i].0.as_str()
    }

    /// The value of the entry at a position.
    pub fn value_at(&self, i: usize) -> (r: &V)
        requires
            i < self.deep_view().len(),
        ensures
            r.deep_view() == self.deep_view()[i as int].1,
    {
        &self.entries[i].1
    }
}

impl<V: Dup> Dup for StrMap<V> {
    fn dup(&self) -> (r: StrMap<V>) {
        let r = StrMap { entries: self.entries.dup() };
        assert(r.deep_view() == self.deep_view());
        r
    }
}

} // verus!
