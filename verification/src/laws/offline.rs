//! Mail without a server: each change shows in the cache at once, in the message it
//! is made to and in no other, and waits in the queue.

use vstd::prelude::*;

use crate::backend::offline::{offline_outcome, operation_of};
use crate::backend::queue::{destroyed_upto, moved_upto, projected, seen_upto};
use crate::backend::{BackendCommandV, BackendResponseV, EmailMutationAction, QueuedMutationV};
use crate::cache::{
    emails_of_upto, entered, ids_in, in_thread_upto, left_upto, queued, read_upto, thread_emails,
    with_keyword, without_id, without_id_upto, CacheV,
};
use crate::data::{
    keys_distinct, lemma_key_index, lemma_lookup_present, lemma_lookup_with_entry,
    lemma_lookup_without_key, lookup, with_entry,
};
use crate::jmap::types::{EmailV, MailboxV};
use crate::sorting::{law_sorted, law_text_order, text_le, total_order};

verus! {

broadcast use vstd::seq_lib::group_seq_properties;

/// Whether the index of a mailbox names a message.
pub open spec fn names(
    index: Seq<(Seq<char>, Seq<Seq<char>>)>,
    mailbox: Seq<char>,
    id: Seq<char>,
) -> bool {
    match lookup(index, mailbox) {
        Some(ids) => ids.contains(id),
        None => false,
    }
}

/// Whether every message stands under its own id, and no two under the same.
pub open spec fn keyed(table: Seq<(Seq<char>, EmailV)>) -> bool {
    &&& keys_distinct(table)
    &&& forall|i: int| 0 <= i < table.len() ==> (#[trigger] table[i]).0 == table[i].1.id
}

/// Whether a count has changed by a number, as far as its type can hold it.
pub open spec fn shifted(before: u32, by: int, after: u32) -> bool {
    if before + by < 0 {
        after == 0
    } else if before + by > u32::MAX {
        after == u32::MAX
    } else {
        after == before + by
    }
}

/// Whether two mailboxes differ at most in what is counted.
pub open spec fn same_but_counts(a: MailboxV, b: MailboxV) -> bool {
    &&& a.id == b.id
    &&& a.name == b.name
    &&& a.parent_id == b.parent_id
    &&& a.role == b.role
    &&& a.sort_order == b.sort_order
}

/// Whether two messages differ at most in one keyword.
pub open spec fn same_but_keyword(a: EmailV, b: EmailV, word: Seq<char>) -> bool {
    &&& EmailV { keywords: b.keywords, ..a } == b
    &&& forall|w: Seq<char>| w != word ==> #[trigger] lookup(a.keywords, w) == lookup(b.keywords, w)
}

// ---------------------------------------------------------------------------
// The index
// ---------------------------------------------------------------------------

proof fn lemma_without_id_iff(ids: Seq<Seq<char>>, id: Seq<char>, k: int, x: Seq<char>)
    requires
        0 <= k <= ids.len(),
    ensures
        without_id_upto(ids, id, k).contains(x) <==> x != id && ids.take(k).contains(x),
    decreases k,
{
    if k > 0 {
        lemma_without_id_iff(ids, id, k - 1, x);
        let before = without_id_upto(ids, id, k - 1);
        let now = without_id_upto(ids, id, k);
        assert(ids.take(k) =~= ids.take(k - 1).push(ids[k - 1]));
        lemma_push_contains(ids.take(k - 1), ids[k - 1], x);
        lemma_push_contains(before, ids[k - 1], x);
    } else {
        assert(!Seq::<Seq<char>>::empty().contains(x));
        assert(!ids.take(0).contains(x));
    }
}

proof fn lemma_push_contains<A>(s: Seq<A>, a: A, x: A)
    ensures
        s.push(a).contains(x) <==> s.contains(x) || x == a,
{
    let t = s.push(a);
    assert(t[s.len() as int] == a);
    if s.contains(x) {
        let i = choose|i: int| 0 <= i < s.len() && s[i] == x;
        assert(t[i] == x);
    }
    if t.contains(x) && x != a {
        let i = choose|i: int| 0 <= i < t.len() && t[i] == x;
        assert(s[i] == x);
    }
}

proof fn lemma_left_names(
    index: Seq<(Seq<char>, Seq<Seq<char>>)>,
    from: Seq<(Seq<char>, bool)>,
    id: Seq<char>,
    k: int,
    q: Seq<char>,
    x: Seq<char>,
)
    requires
        0 <= k <= from.len(),
    ensures
        names(left_upto(index, from, id, k), q, x) <==> names(index, q, x) && !(x == id && exists|
            i: int,
        |
            0 <= i < k && #[trigger] from[i].0 == q),
    decreases k,
{
    if k > 0 {
        lemma_left_names(index, from, id, k - 1, q, x);
        let before = left_upto(index, from, id, k - 1);
        let m = from[k - 1].0;
        match lookup(before, m) {
            Some(ids) => {
                lemma_lookup_with_entry(before, m, without_id(ids, id), q);
                lemma_without_id_iff(ids, id, ids.len() as int, x);
                assert(ids.take(ids.len() as int) =~= ids);
            },
            None => {},
        }
        if q == m {
            assert(from[k - 1].0 == q);
        }
    }
}

/// Which messages the index names once one has left some mailboxes and entered another.
proof fn lemma_moved_names(
    index: Seq<(Seq<char>, Seq<Seq<char>>)>,
    from: Seq<(Seq<char>, bool)>,
    id: Seq<char>,
    to: Seq<char>,
    q: Seq<char>,
    x: Seq<char>,
)
    ensures
        ({
            let after = entered(left_upto(index, from, id, from.len() as int), to, id);
            names(after, q, x) <==> if x == id {
                q == to || (names(index, q, x) && lookup(from, q) is None)
            } else {
                names(index, q, x)
            }
        }),
{
    let left = left_upto(index, from, id, from.len() as int);
    lemma_left_names(index, from, id, from.len() as int, q, x);
    lemma_lookup_present(from, q);
    let ids = match lookup(left, to) {
        Some(ids) => ids,
        None => Seq::empty(),
    };
    let target = seq![id] + without_id(ids, id);
    lemma_lookup_with_entry(left, to, target, q);
    lemma_without_id_iff(ids, id, ids.len() as int, x);
    assert(ids.take(ids.len() as int) =~= ids);
    assert(target.contains(x) <==> x == id || without_id(ids, id).contains(x)) by {
        assert(target[0] == id);
        if without_id(ids, id).contains(x) {
            let i = choose|i: int|
                0 <= i < without_id(ids, id).len() && without_id(ids, id)[i] == x;
            assert(target[i + 1] == x);
        }
        if target.contains(x) && x != id {
            let i = choose|i: int| 0 <= i < target.len() && target[i] == x;
            assert(without_id(ids, id)[i - 1] == x);
        }
    }
}

// ---------------------------------------------------------------------------
// One message
// ---------------------------------------------------------------------------

/// Moving a message keeps it: it is then in the one mailbox it was moved to, is named
/// first there and by the index of no mailbox it was in, and is otherwise as it was.
/// Every other message is as it was and where it was, and the mailboxes count the one
/// message that has left or come.
pub proof fn law_moved_message_is_kept(c: CacheV, op_id: u64, id: Seq<char>, to: Seq<char>)
    requires
        lookup(c.emails, id) is Some,
    ensures
        ({
            let e = lookup(c.emails, id)->0;
            let d = projected(c, QueuedMutationV::MoveEmail { op_id, id, to_mailbox_id: to });
            &&& lookup(d.emails, id) == Some(EmailV { mailbox_ids: seq![(to, true)], ..e })
            &&& names(d.mailbox_index, to, id)
            &&& (lookup(d.mailbox_index, to)->0)[0] == id
            &&& forall|q: Seq<char>|
                q != to && lookup(e.mailbox_ids, q) is Some ==> !#[trigger] names(
                    d.mailbox_index,
                    q,
                    id,
                )
            &&& forall|x: Seq<char>| x != id ==> #[trigger] lookup(d.emails, x) == lookup(c.emails, x)
            &&& forall|q: Seq<char>, x: Seq<char>|
                x != id ==> #[trigger] names(d.mailbox_index, q, x) == names(c.mailbox_index, q, x)
            &&& d.rules_processed == c.rules_processed
            &&& d.op_queue == c.op_queue
        }),
{
    let e = lookup(c.emails, id)->0;
    let d = projected(c, QueuedMutationV::MoveEmail { op_id, id, to_mailbox_id: to });
    let now = EmailV { mailbox_ids: seq![(to, true)], ..e };
    lemma_lookup_with_entry(c.emails, id, now, id);
    crate::cache::law_move_puts_in_one_place(c, id, to);
    assert forall|x: Seq<char>| x != id implies #[trigger] lookup(d.emails, x) == lookup(
        c.emails,
        x,
    ) by {
        lemma_lookup_with_entry(c.emails, id, now, x);
    }
    lemma_moved_names(c.mailbox_index, e.mailbox_ids, id, to, to, id);
    assert forall|q: Seq<char>| q != to && lookup(e.mailbox_ids, q) is Some implies !#[trigger] names(
        d.mailbox_index,
        q,
        id,
    ) by {
        lemma_moved_names(c.mailbox_index, e.mailbox_ids, id, to, q, id);
    }
    assert forall|q: Seq<char>, x: Seq<char>| x != id implies #[trigger] names(
        d.mailbox_index,
        q,
        x,
    ) == names(c.mailbox_index, q, x) by {
        lemma_moved_names(c.mailbox_index, e.mailbox_ids, id, to, q, x);
    }
}

/// The counts of the mailboxes follow a moved message: where it was and is not any
/// more there is one less, where it is and was not there is one more, and so for the
/// unread ones if it is unread.
pub proof fn law_move_is_counted(
    c: CacheV,
    op_id: u64,
    id: Seq<char>,
    to: Seq<char>,
    ms: Seq<MailboxV>,
    i: int,
)
    requires
        lookup(c.emails, id) is Some,
        c.mailboxes == Some(ms),
        0 <= i < ms.len(),
    ensures
        ({
            let e = lookup(c.emails, id)->0;
            let d = projected(c, QueuedMutationV::MoveEmail { op_id, id, to_mailbox_id: to });
            let was = if lookup(e.mailbox_ids, ms[i].id) is Some {
                1int
            } else {
                0
            };
            let is = if ms[i].id == to {
                1int
            } else {
                0
            };
            let unread = if lookup(e.keywords, "$seen"@) is None {
                1int
            } else {
                0
            };
            &&& d.mailboxes is Some && d.mailboxes->0.len() == ms.len()
            &&& same_but_counts(d.mailboxes->0[i], ms[i])
            &&& shifted(ms[i].total_emails, is - was, d.mailboxes->0[i].total_emails)
            &&& shifted(ms[i].unread_emails, unread * (is - was), d.mailboxes->0[i].unread_emails)
        }),
{
}

/// Destroying a message forgets it and no other one, and the mailboxes it was in count
/// one less.
pub proof fn law_destroyed_message_is_gone(c: CacheV, op_id: u64, id: Seq<char>)
    requires
        lookup(c.emails, id) is Some,
    ensures
        ({
            let e = lookup(c.emails, id)->0;
            let d = projected(c, QueuedMutationV::DestroyEmail { op_id, id });
            &&& lookup(d.emails, id) is None
            &&& forall|q: Seq<char>|
                lookup(e.mailbox_ids, q) is Some ==> !#[trigger] names(d.mailbox_index, q, id)
            &&& forall|x: Seq<char>| x != id ==> #[trigger] lookup(d.emails, x) == lookup(c.emails, x)
            &&& forall|q: Seq<char>, x: Seq<char>|
                x != id ==> #[trigger] names(d.mailbox_index, q, x) == names(c.mailbox_index, q, x)
            &&& d.rules_processed == c.rules_processed
            &&& d.op_queue == c.op_queue
            &&& c.mailboxes is Some ==> d.mailboxes is Some && d.mailboxes->0.len()
                == c.mailboxes->0.len()
            &&& c.mailboxes is Some ==> forall|i: int|
                0 <= i < c.mailboxes->0.len() ==> {
                    let m = #[trigger] c.mailboxes->0[i];
                    let was = lookup(e.mailbox_ids, m.id) is Some;
                    let unread = lookup(e.keywords, "$seen"@) is None;
                    &&& same_but_counts(d.mailboxes->0[i], m)
                    &&& shifted(
                        m.total_emails,
                        if was {
                            -1
                        } else {
                            0
                        },
                        d.mailboxes->0[i].total_emails,
                    )
                    &&& shifted(
                        m.unread_emails,
                        if was && unread {
                            -1
                        } else {
                            0
                        },
                        d.mailboxes->0[i].unread_emails,
                    )
                }
        }),
{
    let e = lookup(c.emails, id)->0;
    let d = projected(c, QueuedMutationV::DestroyEmail { op_id, id });
    lemma_lookup_without_key(c.emails, id, id);
    assert forall|x: Seq<char>| x != id implies #[trigger] lookup(d.emails, x) == lookup(
        c.emails,
        x,
    ) by {
        lemma_lookup_without_key(c.emails, id, x);
    }
    assert forall|q: Seq<char>, x: Seq<char>| x != id implies #[trigger] names(
        d.mailbox_index,
        q,
        x,
    ) == names(c.mailbox_index, q, x) by {
        lemma_left_names(c.mailbox_index, e.mailbox_ids, id, e.mailbox_ids.len() as int, q, x);
    }
    assert forall|q: Seq<char>| lookup(e.mailbox_ids, q) is Some implies !#[trigger] names(
        d.mailbox_index,
        q,
        id,
    ) by {
        lemma_left_names(c.mailbox_index, e.mailbox_ids, id, e.mailbox_ids.len() as int, q, id);
        lemma_lookup_present(e.mailbox_ids, q);
    }
}

proof fn lemma_keyword(e: EmailV, word: Seq<char>, on: bool)
    ensures
        lookup(with_keyword(e, word, on).keywords, word) is Some <==> on,
        same_but_keyword(e, with_keyword(e, word, on), word),
{
    let f = with_keyword(e, word, on);
    lemma_lookup_with_entry(e.keywords, word, true, word);
    lemma_lookup_without_key(e.keywords, word, word);
    assert forall|w: Seq<char>| w != word implies #[trigger] lookup(e.keywords, w) == lookup(
        f.keywords,
        w,
    ) by {
        lemma_lookup_with_entry(e.keywords, word, true, w);
        lemma_lookup_without_key(e.keywords, word, w);
    }
}

/// Whether the change from one cache to another is that of one keyword of one message:
/// the keyword is set or not, and nothing else of any message has changed.
pub open spec fn one_keyword_changed(
    c: CacheV,
    d: CacheV,
    id: Seq<char>,
    word: Seq<char>,
    on: bool,
) -> bool {
    &&& lookup(d.emails, id) is Some
    &&& lookup((lookup(d.emails, id)->0).keywords, word) is Some <==> on
    &&& same_but_keyword(lookup(c.emails, id)->0, lookup(d.emails, id)->0, word)
    &&& forall|x: Seq<char>| x != id ==> #[trigger] lookup(d.emails, x) == lookup(c.emails, x)
    &&& d.mailbox_index == c.mailbox_index
    &&& d.rules_processed == c.rules_processed
    &&& d.op_queue == c.op_queue
}

/// Marking a message as read or as unread, or flagging it or not, changes that one
/// mark of that one message. Flags are not counted; where a message becomes read, each
/// mailbox it is in counts one less as unread, and where it becomes unread, one more.
pub proof fn law_mark_changes_one_message(c: CacheV, op_id: u64, id: Seq<char>, flagged: bool)
    requires
        lookup(c.emails, id) is Some,
    ensures
        one_keyword_changed(
            c,
            projected(c, QueuedMutationV::MarkRead { op_id, id }),
            id,
            "$seen"@,
            true,
        ),
        one_keyword_changed(
            c,
            projected(c, QueuedMutationV::MarkUnread { op_id, id }),
            id,
            "$seen"@,
            false,
        ),
        one_keyword_changed(
            c,
            projected(c, QueuedMutationV::SetFlagged { op_id, id, flagged }),
            id,
            "$flagged"@,
            flagged,
        ),
        projected(c, QueuedMutationV::SetFlagged { op_id, id, flagged }).mailboxes == c.mailboxes,
        seen_is_counted(c, projected(c, QueuedMutationV::MarkRead { op_id, id }), id, -1),
        seen_is_counted(c, projected(c, QueuedMutationV::MarkUnread { op_id, id }), id, 1),
{
    let e = lookup(c.emails, id)->0;
    lemma_keyword(e, "$seen"@, true);
    lemma_keyword(e, "$seen"@, false);
    lemma_keyword(e, "$flagged"@, flagged);
    assert forall|f: EmailV, x: Seq<char>| #[trigger]
        lookup(with_entry(c.emails, id, f), x) == (if x == id {
            Some(f)
        } else {
            lookup(c.emails, x)
        }) by {
        lemma_lookup_with_entry(c.emails, id, f, x);
    }
}

/// Whether the mailboxes of a message count one more or less as unread if its reading
/// mark has changed, and no mailbox is otherwise changed.
pub open spec fn seen_is_counted(c: CacheV, d: CacheV, id: Seq<char>, by: int) -> bool {
    let e = lookup(c.emails, id)->0;
    let f = lookup(d.emails, id)->0;
    let changed = (lookup(e.keywords, "$seen"@) is Some) != (lookup(f.keywords, "$seen"@) is Some);
    match c.mailboxes {
        Some(ms) => {
            &&& d.mailboxes is Some && d.mailboxes->0.len() == ms.len()
            &&& forall|i: int|
                0 <= i < ms.len() ==> {
                    let m = #[trigger] ms[i];
                    let n = d.mailboxes->0[i];
                    &&& same_but_counts(n, m)
                    &&& n.total_emails == m.total_emails
                    &&& shifted(
                        m.unread_emails,
                        if changed && lookup(e.mailbox_ids, m.id) is Some {
                            by
                        } else {
                            0
                        },
                        n.unread_emails,
                    )
                }
        },
        None => d.mailboxes is None,
    }
}

/// A change to a message that is not known shows nowhere.
pub proof fn law_unknown_message_changes_nothing(
    c: CacheV,
    op_id: u64,
    id: Seq<char>,
    to: Seq<char>,
    flagged: bool,
)
    requires
        lookup(c.emails, id) is None,
    ensures
        projected(c, QueuedMutationV::MarkRead { op_id, id }) == c,
        projected(c, QueuedMutationV::MarkUnread { op_id, id }) == c,
        projected(c, QueuedMutationV::SetFlagged { op_id, id, flagged }) == c,
        projected(c, QueuedMutationV::MoveEmail { op_id, id, to_mailbox_id: to }) == c,
        projected(c, QueuedMutationV::DestroyEmail { op_id, id }) == c,
{
}

// ---------------------------------------------------------------------------
// Several messages
// ---------------------------------------------------------------------------

/// Whether a message belongs to a thread.
pub open spec fn of_thread(c: CacheV, id: Seq<char>, thread_id: Seq<char>) -> bool {
    match lookup(c.emails, id) {
        Some(e) => e.thread_id == Some(thread_id),
        None => false,
    }
}

proof fn lemma_in_thread(
    table: Seq<(Seq<char>, EmailV)>,
    thread_id: Seq<char>,
    k: int,
    e: EmailV,
)
    requires
        0 <= k <= table.len(),
    ensures
        in_thread_upto(table, thread_id, k).contains(e) <==> e.thread_id == Some(thread_id)
            && exists|i: int| 0 <= i < k && #[trigger] table[i].1 == e,
    decreases k,
{
    if k > 0 {
        lemma_in_thread(table, thread_id, k - 1, e);
        lemma_push_contains(in_thread_upto(table, thread_id, k - 1), table[k - 1].1, e);
        if table[k - 1].1 == e {
            assert(table[k - 1].1 == e);
        }
    } else {
        assert(!Seq::<EmailV>::empty().contains(e));
    }
}

proof fn lemma_id_order()
    ensures
        total_order(|a: EmailV, b: EmailV| text_le(a.id, b.id)),
{
    law_text_order();
    let le = |a: EmailV, b: EmailV| text_le(a.id, b.id);
    assert forall|a: EmailV, b: EmailV| #[trigger] le(a, b) || le(b, a) by {
        assert(text_le(a.id, b.id) || text_le(b.id, a.id));
    }
    assert forall|a: EmailV, b: EmailV, c: EmailV| #[trigger]
        le(a, b) && #[trigger] le(b, c) implies le(a, c) by {
        assert(text_le(a.id, b.id) && text_le(b.id, c.id));
    }
}

/// The messages of a thread are those known ones that say they belong to it, in the
/// order of their ids.
pub proof fn law_thread_holds_its_messages(c: CacheV, thread_id: Seq<char>)
    ensures
        forall|e: EmailV| #[trigger]
            thread_emails(c, thread_id).contains(e) <==> e.thread_id == Some(thread_id) && exists|
                i: int,
            |
                0 <= i < c.emails.len() && #[trigger] c.emails[i].1 == e,
        forall|i: int, j: int|
            0 <= i < j < thread_emails(c, thread_id).len() ==> text_le(
                (#[trigger] thread_emails(c, thread_id)[i]).id,
                (#[trigger] thread_emails(c, thread_id)[j]).id,
            ),
{
    let le = |a: EmailV, b: EmailV| text_le(a.id, b.id);
    let found = in_thread_upto(c.emails, thread_id, c.emails.len() as int);
    let all = thread_emails(c, thread_id);
    lemma_id_order();
    law_sorted(found, le);
    assert forall|i: int, j: int| 0 <= i < j < all.len() implies text_le(
        (#[trigger] all[i]).id,
        (#[trigger] all[j]).id,
    ) by {
        assert(le(all[i], all[j]));
    }
    assert forall|e: EmailV| #[trigger] all.contains(e) <==> e.thread_id == Some(thread_id)
        && exists|i: int| 0 <= i < c.emails.len() && #[trigger] c.emails[i].1 == e by {
        lemma_in_thread(c.emails, thread_id, c.emails.len() as int, e);
        all.to_multiset_ensures();
        found.to_multiset_ensures();
        assert(all.contains(e) <==> all.to_multiset().count(e) > 0);
        assert(found.contains(e) <==> found.to_multiset().count(e) > 0);
    }
}

proof fn lemma_thread_ids(c: CacheV, thread_id: Seq<char>, id: Seq<char>)
    requires
        keyed(c.emails),
    ensures
        of_thread(c, id, thread_id) <==> exists|j: int|
            0 <= j < thread_emails(c, thread_id).len() && #[trigger] thread_emails(
                c,
                thread_id,
            )[j].id == id,
{
    let all = thread_emails(c, thread_id);
    law_thread_holds_its_messages(c, thread_id);
    lemma_key_index(c.emails, id, 0);
    let n = crate::data::key_index(c.emails, id, 0);
    if of_thread(c, id, thread_id) {
        let e = lookup(c.emails, id)->0;
        assert(c.emails[n].1 == e);
        assert(all.contains(e));
        let j = choose|j: int| 0 <= j < all.len() && all[j] == e;
        assert(all[j].id == id);
    }
    if exists|j: int| 0 <= j < all.len() && #[trigger] all[j].id == id {
        let j = choose|j: int| 0 <= j < all.len() && #[trigger] all[j].id == id;
        assert(all.contains(all[j]));
        let i = choose|i: int| 0 <= i < c.emails.len() && #[trigger] c.emails[i].1 == all[j];
        assert(c.emails[i].0 == id);
        assert(n == i) by {
            if n < i {
                assert(c.emails[n].0 != c.emails[i].0);
            }
        }
    }
}

proof fn lemma_moved_upto(
    c: CacheV,
    emails: Seq<EmailV>,
    to: Seq<char>,
    k: int,
    id: Seq<char>,
    q: Seq<char>,
)
    requires
        0 <= k <= emails.len(),
    ensures
        ({
            let d = moved_upto(c, emails, to, k);
            let e = lookup(c.emails, id)->0;
            let hit = lookup(c.emails, id) is Some && exists|j: int|
                0 <= j < k && #[trigger] emails[j].id == id;
            if hit {
                &&& lookup(d.emails, id) == Some(EmailV { mailbox_ids: seq![(to, true)], ..e })
                &&& names(d.mailbox_index, q, id) <==> q == to || (names(c.mailbox_index, q, id)
                    && lookup(e.mailbox_ids, q) is None)
            } else {
                &&& lookup(d.emails, id) == lookup(c.emails, id)
                &&& names(d.mailbox_index, q, id) == names(c.mailbox_index, q, id)
            }
        }),
        moved_upto(c, emails, to, k).rules_processed == c.rules_processed,
    decreases k,
{
    if k > 0 {
        lemma_moved_upto(c, emails, to, k - 1, id, q);
        let b = moved_upto(c, emails, to, k - 1);
        let x = emails[k - 1].id;
        if x == id {
            assert(emails[k - 1].id == id);
        }
        match lookup(b.emails, x) {
            Some(f) => {
                lemma_lookup_with_entry(
                    b.emails,
                    x,
                    EmailV { mailbox_ids: seq![(to, true)], ..f },
                    id,
                );
                lemma_moved_names(b.mailbox_index, f.mailbox_ids, x, to, q, id);
                let only = seq![(to, true)];
                assert(lookup(only, q) is Some <==> q == to) by {
                    lemma_lookup_present(only, q);
                    assert(only[0].0 == to);
                }
            },
            None => {},
        }
    }
}

/// Moving a thread moves each of its messages, and no other: a message of the thread is
/// then in the one mailbox it was moved to and otherwise as it was, and any other
/// message is as it was and where it was.
pub proof fn law_moved_thread_is_kept(
    c: CacheV,
    op_id: u64,
    thread_id: Seq<char>,
    to: Seq<char>,
    id: Seq<char>,
)
    requires
        keyed(c.emails),
    ensures
        ({
            let d = projected(
                c,
                QueuedMutationV::MoveThread { op_id, thread_id, to_mailbox_id: to },
            );
            let e = lookup(c.emails, id)->0;
            &&& of_thread(c, id, thread_id) ==> lookup(d.emails, id) == Some(
                EmailV { mailbox_ids: seq![(to, true)], ..e },
            )
            &&& of_thread(c, id, thread_id) ==> names(d.mailbox_index, to, id)
            &&& of_thread(c, id, thread_id) ==> forall|q: Seq<char>|
                q != to && lookup(e.mailbox_ids, q) is Some ==> !#[trigger] names(
                    d.mailbox_index,
                    q,
                    id,
                )
            &&& !of_thread(c, id, thread_id) ==> lookup(d.emails, id) == lookup(c.emails, id)
            &&& !of_thread(c, id, thread_id) ==> forall|q: Seq<char>| #[trigger]
                names(d.mailbox_index, q, id) == names(c.mailbox_index, q, id)
            &&& d.rules_processed == c.rules_processed
            &&& d.op_queue == c.op_queue
        }),
{
    let op = QueuedMutationV::MoveThread { op_id, thread_id, to_mailbox_id: to };
    let d = projected(c, op);
    let all = thread_emails(c, thread_id);
    lemma_thread_ids(c, thread_id, id);
    crate::backend::queue::law_projection_keeps_queue(c, op);
    lemma_moved_upto(c, all, to, all.len() as int, id, to);
    assert forall|q: Seq<char>| #![trigger names(d.mailbox_index, q, id)]
        if of_thread(c, id, thread_id) {
            names(d.mailbox_index, q, id) <==> q == to || (names(c.mailbox_index, q, id) && lookup(
                (lookup(c.emails, id)->0).mailbox_ids,
                q,
            ) is None)
        } else {
            names(d.mailbox_index, q, id) == names(c.mailbox_index, q, id)
        } by {
        lemma_moved_upto(c, all, to, all.len() as int, id, q);
    }
}

proof fn lemma_destroyed_upto(
    c: CacheV,
    emails: Seq<EmailV>,
    k: int,
    id: Seq<char>,
    q: Seq<char>,
)
    requires
        0 <= k <= emails.len(),
    ensures
        ({
            let d = destroyed_upto(c, emails, k);
            let hit = lookup(c.emails, id) is Some && exists|j: int|
                0 <= j < k && #[trigger] emails[j].id == id;
            if hit {
                &&& lookup(d.emails, id) is None
                &&& lookup((lookup(c.emails, id)->0).mailbox_ids, q) is Some ==> !names(
                    d.mailbox_index,
                    q,
                    id,
                )
            } else {
                &&& lookup(d.emails, id) == lookup(c.emails, id)
                &&& names(d.mailbox_index, q, id) == names(c.mailbox_index, q, id)
            }
        }),
        destroyed_upto(c, emails, k).rules_processed == c.rules_processed,
    decreases k,
{
    if k > 0 {
        lemma_destroyed_upto(c, emails, k - 1, id, q);
        let b = destroyed_upto(c, emails, k - 1);
        let x = emails[k - 1].id;
        if x == id {
            assert(emails[k - 1].id == id);
        }
        match lookup(b.emails, x) {
            Some(f) => {
                lemma_lookup_without_key(b.emails, x, id);
                lemma_left_names(
                    b.mailbox_index,
                    f.mailbox_ids,
                    x,
                    f.mailbox_ids.len() as int,
                    q,
                    id,
                );
                lemma_lookup_present(f.mailbox_ids, q);
            },
            None => {},
        }
    }
}

/// Destroying a thread forgets each of its messages, and no other.
pub proof fn law_destroyed_thread_is_gone(
    c: CacheV,
    op_id: u64,
    thread_id: Seq<char>,
    id: Seq<char>,
)
    requires
        keyed(c.emails),
    ensures
        ({
            let d = projected(c, QueuedMutationV::DestroyThread { op_id, thread_id });
            let e = lookup(c.emails, id)->0;
            &&& of_thread(c, id, thread_id) ==> lookup(d.emails, id) is None
            &&& of_thread(c, id, thread_id) ==> forall|q: Seq<char>|
                lookup(e.mailbox_ids, q) is Some ==> !#[trigger] names(d.mailbox_index, q, id)
            &&& !of_thread(c, id, thread_id) ==> lookup(d.emails, id) == lookup(c.emails, id)
            &&& !of_thread(c, id, thread_id) ==> forall|q: Seq<char>| #[trigger]
                names(d.mailbox_index, q, id) == names(c.mailbox_index, q, id)
            &&& d.rules_processed == c.rules_processed
            &&& d.op_queue == c.op_queue
        }),
{
    let op = QueuedMutationV::DestroyThread { op_id, thread_id };
    let d = projected(c, op);
    let all = thread_emails(c, thread_id);
    lemma_thread_ids(c, thread_id, id);
    crate::backend::queue::law_projection_keeps_queue(c, op);
    lemma_destroyed_upto(c, all, all.len() as int, id, id);
    assert forall|q: Seq<char>| #![trigger names(d.mailbox_index, q, id)]
        if of_thread(c, id, thread_id) {
            lookup((lookup(c.emails, id)->0).mailbox_ids, q) is Some ==> !names(
                d.mailbox_index,
                q,
                id,
            )
        } else {
            names(d.mailbox_index, q, id) == names(c.mailbox_index, q, id)
        } by {
        lemma_destroyed_upto(c, all, all.len() as int, id, q);
    }
}

proof fn lemma_seen_upto(c: CacheV, ids: Seq<Seq<char>>, k: int, id: Seq<char>)
    requires
        0 <= k <= ids.len(),
    ensures
        ({
            let d = seen_upto(c, ids, k);
            let hit = ids.take(k).contains(id);
            &&& d.mailbox_index == c.mailbox_index
            &&& d.rules_processed == c.rules_processed
            &&& !hit ==> lookup(d.emails, id) == lookup(c.emails, id)
            &&& lookup(c.emails, id) is Some <==> lookup(d.emails, id) is Some
            &&& hit && lookup(c.emails, id) is Some ==> lookup(
                (lookup(d.emails, id)->0).keywords,
                "$seen"@,
            ) is Some && same_but_keyword(
                lookup(c.emails, id)->0,
                lookup(d.emails, id)->0,
                "$seen"@,
            )
        }),
    decreases k,
{
    if k > 0 {
        lemma_seen_upto(c, ids, k - 1, id);
        let b = seen_upto(c, ids, k - 1);
        let x = ids[k - 1];
        assert(ids.take(k) =~= ids.take(k - 1).push(x));
        lemma_push_contains(ids.take(k - 1), x, id);
        match lookup(b.emails, x) {
            Some(f) => {
                lemma_lookup_with_entry(b.emails, x, with_keyword(f, "$seen"@, true), id);
                lemma_keyword(f, "$seen"@, true);
            },
            None => {},
        }
    } else {
        assert(!ids.take(0).contains(id));
    }
}

/// Marking a thread as read marks the messages that are named, and changes nothing
/// else of any message.
pub proof fn law_read_thread_is_read(
    c: CacheV,
    thread_id: Seq<char>,
    email_ids: Seq<Seq<char>>,
    id: Seq<char>,
)
    ensures
        ({
            let d = projected(c, QueuedMutationV::MarkThreadRead { thread_id, email_ids });
            &&& lookup(d.emails, id) is Some <==> lookup(c.emails, id) is Some
            &&& !email_ids.contains(id) ==> lookup(d.emails, id) == lookup(c.emails, id)
            &&& email_ids.contains(id) && lookup(c.emails, id) is Some ==> lookup(
                (lookup(d.emails, id)->0).keywords,
                "$seen"@,
            ) is Some && same_but_keyword(
                lookup(c.emails, id)->0,
                lookup(d.emails, id)->0,
                "$seen"@,
            )
            &&& d.mailbox_index == c.mailbox_index
            &&& d.rules_processed == c.rules_processed
            &&& d.op_queue == c.op_queue
        }),
{
    crate::backend::queue::law_projection_keeps_queue(
        c,
        QueuedMutationV::MarkThreadRead { thread_id, email_ids },
    );
    lemma_seen_upto(c, email_ids, email_ids.len() as int, id);
    assert(email_ids.take(email_ids.len() as int) =~= email_ids);
}

proof fn lemma_read_upto(
    table: Seq<(Seq<char>, EmailV)>,
    ids: Seq<Seq<char>>,
    k: int,
    id: Seq<char>,
)
    requires
        0 <= k <= ids.len(),
    ensures
        ({
            let after = read_upto(table, ids, k).0;
            let hit = ids.take(k).contains(id);
            &&& !hit ==> lookup(after, id) == lookup(table, id)
            &&& lookup(table, id) is Some <==> lookup(after, id) is Some
            &&& hit && lookup(table, id) is Some ==> lookup(
                (lookup(after, id)->0).keywords,
                "$seen"@,
            ) is Some && same_but_keyword(
                lookup(table, id)->0,
                lookup(after, id)->0,
                "$seen"@,
            )
        }),
    decreases k,
{
    if k > 0 {
        lemma_read_upto(table, ids, k - 1, id);
        let b = read_upto(table, ids, k - 1).0;
        let x = ids[k - 1];
        assert(ids.take(k) =~= ids.take(k - 1).push(x));
        lemma_push_contains(ids.take(k - 1), x, id);
        match lookup(b, x) {
            Some(f) => {
                lemma_lookup_with_entry(b, x, with_keyword(f, "$seen"@, true), id);
                lemma_keyword(f, "$seen"@, true);
            },
            None => {},
        }
    } else {
        assert(!ids.take(0).contains(id));
    }
}

/// Marking a mailbox as read marks the messages that its index names, and changes
/// nothing else of any message.
pub proof fn law_read_mailbox_is_read(
    c: CacheV,
    mailbox_id: Seq<char>,
    mailbox_name: Seq<char>,
    id: Seq<char>,
)
    ensures
        ({
            let d = projected(c, QueuedMutationV::MarkMailboxRead { mailbox_id, mailbox_name });
            let named = names(c.mailbox_index, mailbox_id, id);
            &&& lookup(d.emails, id) is Some <==> lookup(c.emails, id) is Some
            &&& !named ==> lookup(d.emails, id) == lookup(c.emails, id)
            &&& named && lookup(c.emails, id) is Some ==> lookup(
                (lookup(d.emails, id)->0).keywords,
                "$seen"@,
            ) is Some && same_but_keyword(
                lookup(c.emails, id)->0,
                lookup(d.emails, id)->0,
                "$seen"@,
            )
            &&& d.mailbox_index == c.mailbox_index
            &&& d.rules_processed == c.rules_processed
            &&& d.op_queue == c.op_queue
        }),
{
    let ids = ids_in(c, mailbox_id);
    lemma_read_upto(c.emails, ids, ids.len() as int, id);
    assert(ids.take(ids.len() as int) =~= ids);
    assert(!Seq::<Seq<char>>::empty().contains(id));
}

// ---------------------------------------------------------------------------
// Commands
// ---------------------------------------------------------------------------

/// Without a server, each change is put behind those that wait, under a number above
/// theirs, is shown in the cache as the change it is, and is answered as done, by its
/// own number and under the name of what it changes.
pub proof fn law_offline_change_is_shown_and_answered(
    c: CacheV,
    mailboxes: Seq<MailboxV>,
    payload: Seq<u8>,
    op_id: u64,
    id: Seq<char>,
    to: Seq<char>,
    flagged: bool,
    ids: Seq<Seq<char>>,
)
    ensures
        ({
            let q = CacheV { op_queue: queued(c.op_queue, payload), ..c };
            let outcome = |cmd: BackendCommandV|
                offline_outcome(cmd, Some(c), mailboxes, Ok(payload));
            let done = |cmd: BackendCommandV, op: QueuedMutationV, action: EmailMutationAction|
                outcome(cmd) == (
                    Some(projected(q, op)),
                    mailboxes,
                    Some(
                        BackendResponseV::EmailMutation { op_id, id, action, result: Ok(()) },
                    ),
                );
            &&& done(
                BackendCommandV::MarkEmailRead { op_id, id },
                QueuedMutationV::MarkRead { op_id, id },
                EmailMutationAction::MarkRead,
            )
            &&& done(
                BackendCommandV::MarkEmailUnread { op_id, id },
                QueuedMutationV::MarkUnread { op_id, id },
                EmailMutationAction::MarkUnread,
            )
            &&& done(
                BackendCommandV::SetEmailFlagged { op_id, id, flagged },
                QueuedMutationV::SetFlagged { op_id, id, flagged },
                EmailMutationAction::SetFlagged(flagged),
            )
            &&& done(
                BackendCommandV::MoveEmail { op_id, id, to_mailbox_id: to },
                QueuedMutationV::MoveEmail { op_id, id, to_mailbox_id: to },
                EmailMutationAction::Move,
            )
            &&& done(
                BackendCommandV::MoveThread { op_id, thread_id: id, to_mailbox_id: to },
                QueuedMutationV::MoveThread { op_id, thread_id: id, to_mailbox_id: to },
                EmailMutationAction::Move,
            )
            &&& done(
                BackendCommandV::DestroyEmail { op_id, id },
                QueuedMutationV::DestroyEmail { op_id, id },
                EmailMutationAction::Destroy,
            )
            &&& done(
                BackendCommandV::DestroyThread { op_id, thread_id: id },
                QueuedMutationV::DestroyThread { op_id, thread_id: id },
                EmailMutationAction::Destroy,
            )
            &&& outcome(BackendCommandV::MarkThreadRead { thread_id: id, email_ids: ids }) == (
                Some(
                    projected(
                        q,
                        QueuedMutationV::MarkThreadRead { thread_id: id, email_ids: ids },
                    ),
                ),
                mailboxes,
                Some(BackendResponseV::ThreadMarkedRead { thread_id: id, result: Ok(()) }),
            )
            &&& q.op_queue.len() > 0 && q.op_queue.last().1 == payload
            &&& c.op_queue.len() > 0 && c.op_queue.last().0 == u64::MAX || q.op_queue.drop_last()
                == c.op_queue
        }),
{
    let q = queued(c.op_queue, payload);
    if !(c.op_queue.len() > 0 && c.op_queue.last().0 == u64::MAX) {
        assert(q.drop_last() =~= c.op_queue);
    }
}

/// Without a server, a change that cannot be stored is not shown, and is answered with
/// the reason; so is any change where there is no cache.
pub proof fn law_unstored_offline_change_is_not_shown(
    cmd: BackendCommandV,
    c: CacheV,
    mailboxes: Seq<MailboxV>,
    e: Seq<char>,
    op_id: u64,
    id: Seq<char>,
    to: Seq<char>,
    payload: Result<Seq<u8>, Seq<char>>,
)
    requires
        cmd == (BackendCommandV::MarkEmailRead { op_id, id }) || cmd == (
        BackendCommandV::MarkEmailUnread { op_id, id }) || cmd == (BackendCommandV::DestroyEmail {
            op_id,
            id,
        }) || cmd == (BackendCommandV::MoveEmail { op_id, id, to_mailbox_id: to }),
    ensures
        ({
            let (after, ms, response) = offline_outcome(cmd, Some(c), mailboxes, Err(e));
            &&& after == Some(c)
            &&& ms == mailboxes
            &&& response matches Some(BackendResponseV::EmailMutation { result, .. }) && result
                == Err::<(), Seq<char>>(e)
        }),
        ({
            let (after, _, response) = offline_outcome(cmd, None, mailboxes, payload);
            &&& after is None
            &&& response matches Some(BackendResponseV::EmailMutation { result, .. }) && result
                == Err::<(), Seq<char>>("cache unavailable (offline mode)"@)
        }),
{
}

proof fn lemma_listed(table: Seq<(Seq<char>, EmailV)>, ids: Seq<Seq<char>>, k: int)
    requires
        0 <= k <= ids.len(),
    ensures
        emails_of_upto(table, ids, k) == ids.take(k).filter(
            |x: Seq<char>| lookup(table, x) is Some,
        ).map_values(|x: Seq<char>| lookup(table, x)->0),
    decreases k,
{
    let known = |x: Seq<char>| lookup(table, x) is Some;
    let get = |x: Seq<char>| lookup(table, x)->0;
    reveal(Seq::filter);
    if k > 0 {
        lemma_listed(table, ids, k - 1);
        assert(ids.take(k).drop_last() =~= ids.take(k - 1));
        assert(ids.take(k).last() == ids[k - 1]);
        let before = ids.take(k - 1).filter(known);
        assert(before.push(ids[k - 1]).map_values(get) =~= before.map_values(get).push(
            get(ids[k - 1]),
        ));
    } else {
        assert(ids.take(0) =~= Seq::empty());
        assert(Seq::<Seq<char>>::empty().filter(known).map_values(get) =~= Seq::<EmailV>::empty());
    }
}

/// Without a server, the first page of a mailbox lists the messages that its index
/// names and that are known, in the order of the index; a message is shown as it is
/// known, and a thread with its messages.
pub proof fn law_offline_reads_show_the_cache(
    c: CacheV,
    ms: Seq<MailboxV>,
    payload: Result<Seq<u8>, Seq<char>>,
    origin: Seq<char>,
    mailbox_id: Seq<char>,
    page_size: u32,
    id: Seq<char>,
    ids: Seq<Seq<char>>,
)
    requires
        lookup(c.mailbox_index, mailbox_id) == Some(ids),
    ensures
        ({
            let page = BackendCommandV::QueryEmails {
                origin,
                mailbox_id,
                page_size,
                position: 0,
                search_query: None,
                received_after: None,
                received_before: None,
            };
            let known = ids.filter(|x: Seq<char>| lookup(c.emails, x) is Some);
            let listed = known.map_values(|x: Seq<char>| lookup(c.emails, x)->0);
            &&& offline_outcome(page, Some(c), ms, payload).2 matches Some(
                BackendResponseV::Emails { mailbox_id: m, emails, position, .. },
            ) && m == mailbox_id && position == 0 && emails == Ok::<Seq<EmailV>, Seq<char>>(listed)
        }),
        ({
            let opened = match lookup(c.emails, id) {
                Some(e) => Ok(e),
                None => Err("email not cached (offline mode)"@),
            };
            &&& offline_outcome(BackendCommandV::GetEmail { id }, Some(c), ms, payload).2 == Some(
                BackendResponseV::EmailBody { id, result: opened },
            )
            &&& offline_outcome(BackendCommandV::GetEmailForReply { id }, Some(c), ms, payload).2
                == Some(BackendResponseV::EmailForReply { id, result: opened })
            &&& offline_outcome(
                BackendCommandV::QueryThreadEmails { thread_id: id },
                Some(c),
                ms,
                payload,
            ).2 == Some(
                BackendResponseV::ThreadEmails { thread_id: id, emails: Ok(thread_emails(c, id)) },
            )
        }),
        c.mailboxes is Some && c.mailboxes->0.len() > 0 ==> offline_outcome(
            BackendCommandV::FetchMailboxes { origin },
            Some(c),
            ms,
            payload,
        ) == (
            Some(c),
            c.mailboxes->0,
            Some(BackendResponseV::Mailboxes(Ok(c.mailboxes->0))),
        ),
{
    lemma_listed(c.emails, ids, ids.len() as int);
    assert(ids.take(ids.len() as int) =~= ids);
    let known = |x: Seq<char>| lookup(c.emails, x) is Some;
    let listed = ids.filter(known).map_values(|x: Seq<char>| lookup(c.emails, x)->0);
    assert(listed == emails_of_upto(c.emails, ids, ids.len() as int));
    assert(ids.filter(known).len() == listed.len());
    if listed.len() == 0 {
        assert(listed =~= Seq::empty());
    }
}

// ---------------------------------------------------------------------------
// Counts and refusals
// ---------------------------------------------------------------------------

/// Moving or destroying a thread is moving or destroying its messages one after the
/// other, also in what the mailboxes count; so is marking messages as read.
pub proof fn law_threads_change_message_by_message(
    c: CacheV,
    op_id: u64,
    emails: Seq<EmailV>,
    ids: Seq<Seq<char>>,
    to: Seq<char>,
    k: int,
)
    requires
        0 <= k < emails.len(),
        k < ids.len(),
    ensures
        moved_upto(c, emails, to, 0) == c,
        moved_upto(c, emails, to, k + 1) == projected(
            moved_upto(c, emails, to, k),
            QueuedMutationV::MoveEmail { op_id, id: emails[k].id, to_mailbox_id: to },
        ),
        destroyed_upto(c, emails, 0) == c,
        destroyed_upto(c, emails, k + 1) == projected(
            destroyed_upto(c, emails, k),
            QueuedMutationV::DestroyEmail { op_id, id: emails[k].id },
        ),
        seen_upto(c, ids, 0) == c,
        seen_upto(c, ids, k + 1) == projected(
            seen_upto(c, ids, k),
            QueuedMutationV::MarkRead { op_id, id: ids[k] },
        ),
{
}

/// How many of some messages are in a mailbox.
pub open spec fn number_in(emails: Seq<EmailV>, mailbox: Seq<char>) -> nat {
    emails.filter(|e: EmailV| lookup(e.mailbox_ids, mailbox) is Some).len()
}

proof fn lemma_count_in(emails: Seq<EmailV>, mailbox: Seq<char>, k: int)
    requires
        0 <= k <= emails.len(),
    ensures
        crate::cache::count_in(emails, mailbox, k) == number_in(emails.take(k), mailbox),
    decreases k,
{
    reveal(Seq::filter);
    if k > 0 {
        lemma_count_in(emails, mailbox, k - 1);
        assert(emails.take(k).drop_last() =~= emails.take(k - 1));
        assert(emails.take(k).last() == emails[k - 1]);
    } else {
        assert(emails.take(0) =~= Seq::empty());
    }
}

/// Once a mailbox is marked as read, each mailbox counts as many unread messages less as
/// it holds of those that became read, and everything else of it is as it was.
pub proof fn law_reading_a_mailbox_is_counted(
    c: CacheV,
    mailbox_id: Seq<char>,
    mailbox_name: Seq<char>,
    ms: Seq<MailboxV>,
    i: int,
)
    requires
        c.mailboxes == Some(ms),
        0 <= i < ms.len(),
    ensures
        ({
            let d = projected(c, QueuedMutationV::MarkMailboxRead { mailbox_id, mailbox_name });
            let ids = match lookup(c.mailbox_index, mailbox_id) {
                Some(ids) => ids,
                None => Seq::empty(),
            };
            let read = read_upto(c.emails, ids, ids.len() as int).1;
            let n = d.mailboxes->0[i];
            &&& d.mailboxes is Some && d.mailboxes->0.len() == ms.len()
            &&& same_but_counts(n, ms[i]) && n.total_emails == ms[i].total_emails
            &&& shifted(ms[i].unread_emails, -(number_in(read, ms[i].id) as int), n.unread_emails)
        }),
{
    let ids = ids_in(c, mailbox_id);
    let read = read_upto(c.emails, ids, ids.len() as int).1;
    lemma_count_in(read, ms[i].id, read.len() as int);
    assert(read.take(read.len() as int) =~= read);
}

/// Without a server, what only a server can do is refused, and nothing changes; a search,
/// a page that is not the first and a message that is not known are refused as well, and
/// a mailbox whose messages are not known has none.
pub proof fn law_offline_refusals(
    c: CacheV,
    ms: Seq<MailboxV>,
    payload: Result<Seq<u8>, Seq<char>>,
    origin: Seq<char>,
    id: Seq<char>,
    name: Seq<char>,
    kind: Seq<char>,
    page_size: u32,
    position: u32,
    search: Option<Seq<char>>,
)
    ensures
        ({
            let away = "not available in offline mode"@;
            let told = |cmd: BackendCommandV, response: BackendResponseV|
                offline_outcome(cmd, Some(c), ms, payload) == (Some(c), ms, Some(response));
            let page = |position: u32, search: Option<Seq<char>>|
                BackendCommandV::QueryEmails {
                    origin,
                    mailbox_id: id,
                    page_size,
                    position,
                    search_query: search,
                    received_after: None,
                    received_before: None,
                };
            &&& told(
                BackendCommandV::CreateMailbox { name },
                BackendResponseV::MailboxCreated { name, result: Err(away) },
            )
            &&& told(
                BackendCommandV::DeleteMailbox { id, name },
                BackendResponseV::MailboxDeleted { name, result: Err(away) },
            )
            &&& told(
                BackendCommandV::GetEmailRawHeaders { id },
                BackendResponseV::EmailRawHeaders { id, result: Err(away) },
            )
            &&& told(
                BackendCommandV::DownloadAttachment { blob_id: id, name, content_type: kind },
                BackendResponseV::AttachmentDownloaded { name, result: Err(away) },
            )
            &&& told(
                BackendCommandV::PreviewRulesForMailbox {
                    origin,
                    mailbox_id: id,
                    mailbox_name: name,
                },
                BackendResponseV::RulesDryRun {
                    mailbox_id: id,
                    mailbox_name: name,
                    result: Err(away),
                },
            )
            &&& position != 0 || search is Some ==> (offline_outcome(
                page(position, search),
                Some(c),
                ms,
                payload,
            ).2 matches Some(BackendResponseV::Emails { emails, .. }) && emails is Err)
            &&& lookup(c.mailbox_index, id) is None ==> (offline_outcome(
                page(0, None),
                Some(c),
                ms,
                payload,
            ).2 matches Some(BackendResponseV::Emails { emails, total, .. }) && emails == Ok::<
                Seq<EmailV>,
                Seq<char>,
            >(Seq::empty()) && total == Some(0u32))
            &&& c.mailboxes is None ==> (offline_outcome(
                BackendCommandV::FetchMailboxes { origin },
                Some(c),
                ms,
                payload,
            ).2 matches Some(BackendResponseV::Mailboxes(r)) && r is Err)
        }),
{
}

/// Without a server, marking a mailbox as read, running the rules on one and carrying out
/// the retention policies wait as what they are, for the mailbox and with the policies
/// that were given.
pub proof fn law_offline_work_on_mailboxes_waits(
    c: CacheV,
    ms: Seq<MailboxV>,
    payload: Seq<u8>,
    origin: Seq<char>,
    mailbox_id: Seq<char>,
    mailbox_name: Seq<char>,
    policies: Seq<crate::config::RetentionPolicyConfigV>,
    i: int,
)
    requires
        0 <= i < policies.len(),
    ensures
        ({
            let q = CacheV { op_queue: queued(c.op_queue, payload), ..c };
            let after = |cmd: BackendCommandV| offline_outcome(cmd, Some(c), ms, Ok(payload)).0;
            let expiry = operation_of(BackendCommandV::ExecuteRetentionExpiry { policies });
            &&& after(BackendCommandV::MarkMailboxRead { mailbox_id, mailbox_name }) == Some(
                projected(q, QueuedMutationV::MarkMailboxRead { mailbox_id, mailbox_name }),
            )
            &&& after(
                BackendCommandV::RunRulesForMailbox { origin, mailbox_id, mailbox_name },
            ) == Some(q)
            &&& operation_of(
                BackendCommandV::RunRulesForMailbox { origin, mailbox_id, mailbox_name },
            ) == Some(QueuedMutationV::RunRulesForMailbox { mailbox_id })
            &&& after(BackendCommandV::ExecuteRetentionExpiry { policies }) == Some(q)
            &&& expiry matches Some(QueuedMutationV::ExecuteRetentionExpiry { policies: kept })
                && kept.len() == policies.len() && kept[i].name == policies[i].name && kept[i].folder
                == policies[i].folder && kept[i].days == policies[i].days
        }),
{
}

} // verus!
