//! Drafts: who a reply goes to, what it answers and what it quotes, and what a forwarded
//! message carries along.

use vstd::prelude::*;

use crate::compose::{
    address_in, answered_id, bare_end, bare_start, body_text, bracketed, compose_draft, copies,
    copies_upto, forward_draft, gets_copy, own_address, prefixed_subject, quoted, reply_copies,
    reply_draft, thread_ids,
};
use crate::jmap::types::{shown_address, EmailAddressV, EmailV};
use crate::text::{
    begins, find, joined, lemma_find_from, lemma_next_at, lines_of, lowercase, next_at, occurs_at,
    pieces, pieces_from, rfind, trimmed, without_cr,
};

verus! {

// ---------------------------------------------------------------------------
// Lines
// ---------------------------------------------------------------------------

proof fn lemma_next_at_is(s: Seq<char>, c: char, i: int, j: int)
    requires
        0 <= i <= j <= s.len(),
        j < s.len() ==> s[j] == c,
        forall|k: int| i <= k < j ==> s[k] != c,
    ensures
        next_at(s, c, i) == j,
    decreases j - i,
{
    if i < j {
        lemma_next_at_is(s, c, i + 1, j);
    }
}

proof fn lemma_pieces_shift(a: Seq<char>, s: Seq<char>, c: char, i: int)
    requires
        0 <= i <= s.len(),
    ensures
        pieces_from(a + s, c, a.len() + i) == pieces_from(s, c, i),
    decreases s.len() - i,
{
    let t = a + s;
    lemma_next_at(s, c, i);
    let j = next_at(s, c, i);
    assert forall|k: int| a.len() + i <= k < a.len() + j implies t[k] != c by {
        assert(t[k] == s[k - a.len()]);
    }
    lemma_next_at_is(t, c, a.len() + i, a.len() + j);
    if j < s.len() {
        lemma_pieces_shift(a, s, c, j + 1);
        assert(t.subrange(a.len() + i, a.len() + j) =~= s.subrange(i, j));
    } else {
        assert(t.subrange(a.len() + i, t.len() as int) =~= s.subrange(i, s.len() as int));
    }
}

/// A text without the separator is one piece; what stands before the first separator is
/// the first piece, and what stands behind it falls into the others.
pub proof fn law_pieces_lie_between_separators(a: Seq<char>, s: Seq<char>, c: char)
    requires
        !a.contains(c),
    ensures
        pieces(a, c) == seq![a],
        pieces(a + seq![c] + s, c) == seq![a] + pieces(s, c),
{
    assert forall|k: int| 0 <= k < a.len() implies a[k] != c by {
        assert(a.contains(a[k]));
    }
    lemma_next_at_is(a, c, 0, a.len() as int);
    assert(a.subrange(0, a.len() as int) =~= a);
    let front = a + seq![c];
    let t = front + s;
    assert forall|k: int| 0 <= k < a.len() implies t[k] != c by {
        assert(t[k] == a[k]);
    }
    assert(t[a.len() as int] == c);
    lemma_next_at_is(t, c, 0, a.len() as int);
    assert(t.subrange(0, a.len() as int) =~= a);
    lemma_pieces_shift(front, s, c, 0);
}

/// A text without a line end is one line, if it is not empty; what stands before a line
/// end is a line, without the carriage return that may end it, and the lines of what
/// stands behind follow.
pub proof fn law_lines_end_at_line_ends(a: Seq<char>, s: Seq<char>)
    requires
        !a.contains('\n'),
    ensures
        a.len() > 0 ==> lines_of(a) == seq![a],
        lines_of(Seq::empty()) == Seq::<Seq<char>>::empty(),
        (a.len() == 0 || a.last() != '\r') ==> lines_of(a + seq!['\n'] + s) == seq![a] + lines_of(s),
        lines_of(a + seq!['\r'] + seq!['\n'] + s) == seq![a] + lines_of(s),
{
    law_pieces_lie_between_separators(a, s, '\n');
    assert(seq![a].drop_last() =~= Seq::<Seq<char>>::empty());
    if a.len() > 0 {
        assert(lines_of(a) =~= seq![a]);
    }
    let none = Seq::<char>::empty();
    assert(!none.contains('\n'));
    law_pieces_lie_between_separators(none, s, '\n');
    assert(seq![none].drop_last() =~= Seq::<Seq<char>>::empty());
    assert(lines_of(none) =~= Seq::<Seq<char>>::empty());
    let b = a + seq!['\r'];
    assert(!b.contains('\n')) by {
        if b.contains('\n') {
            let i = choose|i: int| 0 <= i < b.len() && b[i] == '\n';
            assert(i < a.len() && a[i] == '\n');
        }
    }
    law_pieces_lie_between_separators(b, s, '\n');
    crate::text::lemma_pieces_many(s, '\n');
    let ps = pieces(s, '\n');
    lemma_lines_after(a, s, a);
    lemma_lines_after(b, s, a);
    assert(b.drop_last() =~= a);
}

proof fn lemma_lines_after(a: Seq<char>, s: Seq<char>, shown: Seq<char>)
    requires
        pieces(a + seq!['\n'] + s, '\n') == seq![a] + pieces(s, '\n'),
        pieces(s, '\n').len() > 0,
    ensures
        without_cr(a) == shown ==> lines_of(a + seq!['\n'] + s) == seq![shown] + lines_of(s),
{
    let ps = pieces(s, '\n');
    let all = seq![a] + ps;
    assert(all.last() == ps.last());
    assert(all.drop_last() =~= seq![a] + ps.drop_last());
    if without_cr(a) == shown {
        assert(lines_of(a + seq!['\n'] + s) =~= seq![shown] + lines_of(s));
    }
}

/// Every line of a text is quoted with a mark before it, in order, and no line is lost.
pub proof fn law_every_line_is_quoted(a: Seq<char>, s: Seq<char>)
    requires
        !a.contains('\n'),
        a.len() == 0 || a.last() != '\r',
    ensures
        a.len() > 0 ==> quoted(a) == "> "@ + a,
        lines_of(s).len() > 0 ==> quoted(a + seq!['\n'] + s) == "> "@ + a + "\n"@ + quoted(s),
{
    law_lines_end_at_line_ends(a, s);
    let mark = |l: Seq<char>| "> "@ + l;
    assert(seq![a].map_values(mark) =~= seq!["> "@ + a]);
    crate::laws::rules::law_joined(Seq::empty(), Seq::empty(), "> "@ + a, "\n"@);
    let rest = lines_of(s).map_values(mark);
    assert((seq![a] + lines_of(s)).map_values(mark) =~= seq!["> "@ + a] + rest);
    crate::laws::rules::law_joined(seq!["> "@ + a], rest, "> "@ + a, "\n"@);
}

// ---------------------------------------------------------------------------
// Who a reply goes to
// ---------------------------------------------------------------------------

/// The addresses of an optional list.
pub open spec fn listed(list: Option<Seq<EmailAddressV>>) -> Seq<EmailAddressV> {
    match list {
        Some(l) => l,
        None => Seq::empty(),
    }
}

/// Whether someone else than the user is reached at an address.
pub open spec fn someone_else(a: EmailAddressV, me: Option<Seq<char>>) -> bool {
    a.email is Some && (me is None || lowercase(a.email->0) != lowercase(me->0))
}

/// Those that a reply to all is copied to: everyone whom the message is to, then everyone
/// who got a copy of it, but for the user.
pub open spec fn others(e: EmailV, me: Option<Seq<char>>) -> Seq<EmailAddressV> {
    (listed(e.to) + listed(e.cc)).filter(|a: EmailAddressV| someone_else(a, me))
}

proof fn lemma_copies_upto(
    list: Seq<EmailAddressV>,
    me: Option<Seq<char>>,
    acc: Seq<Seq<char>>,
    k: int,
)
    requires
        0 <= k <= list.len(),
    ensures
        ({
            let low = match me {
                Some(m) => Some(lowercase(m)),
                None => None,
            };
            copies_upto(list, low, acc, k) == acc + list.take(k).filter(
                |a: EmailAddressV| someone_else(a, me),
            ).map_values(|a: EmailAddressV| shown_address(a))
        }),
    decreases k,
{
    let low = match me {
        Some(m) => Some(lowercase(m)),
        None => None,
    };
    let keep = |a: EmailAddressV| someone_else(a, me);
    let show = |a: EmailAddressV| shown_address(a);
    reveal(Seq::filter);
    if k > 0 {
        lemma_copies_upto(list, me, acc, k - 1);
        assert(list.take(k).drop_last() =~= list.take(k - 1));
        assert(list.take(k).last() == list[k - 1]);
        let before = list.take(k - 1).filter(keep);
        assert(gets_copy(list[k - 1], low) == keep(list[k - 1]));
        assert(before.push(list[k - 1]).map_values(show) =~= before.map_values(show).push(
            show(list[k - 1]),
        ));
        assert((acc + before.map_values(show)).push(show(list[k - 1])) =~= acc + before.map_values(
            show,
        ).push(show(list[k - 1])));
    } else {
        assert(list.take(0) =~= Seq::empty());
        assert(Seq::<EmailAddressV>::empty().filter(keep).map_values(show) =~= Seq::empty());
        assert(acc + Seq::<Seq<char>>::empty() =~= acc);
    }
}

/// A reply to all is copied to everyone else, and to nobody twice over: those that the
/// message was to, in order, and then those that got a copy, in order, each under the
/// full address. A reply to the sender alone is copied to nobody.
pub proof fn law_reply_to_all_reaches_everyone_else(e: EmailV, from: Seq<char>)
    ensures
        reply_copies(e, true, from) == joined(
            others(e, address_in(from)).map_values(|a: EmailAddressV| shown_address(a)),
            ", "@,
        ),
        reply_copies(e, false, from).len() == 0,
        forall|a: EmailAddressV|
            (listed(e.to).contains(a) || listed(e.cc).contains(a)) && someone_else(
                a,
                address_in(from),
            ) ==> #[trigger] others(e, address_in(from)).contains(a),
        forall|a: EmailAddressV| #[trigger]
            others(e, address_in(from)).contains(a) ==> (listed(e.to).contains(a) || listed(
                e.cc,
            ).contains(a)) && someone_else(a, address_in(from)),
{
    let me = address_in(from);
    let keep = |a: EmailAddressV| someone_else(a, me);
    let show = |a: EmailAddressV| shown_address(a);
    let to = listed(e.to);
    let cc = listed(e.cc);
    lemma_copies_upto(to, me, Seq::empty(), to.len() as int);
    assert(to.take(to.len() as int) =~= to);
    assert(cc.take(cc.len() as int) =~= cc);
    let first = to.filter(keep).map_values(show);
    assert(copies(e.to, own_address(from), Seq::empty()) =~= first) by {
        assert(Seq::<Seq<char>>::empty() + first =~= first);
        if e.to is None {
            reveal(Seq::filter);
            assert(first =~= Seq::empty());
        }
    }
    lemma_copies_upto(cc, me, first, cc.len() as int);
    let second = cc.filter(keep).map_values(show);
    assert(copies(e.cc, own_address(from), first) =~= first + second) by {
        if e.cc is None {
            reveal(Seq::filter);
            assert(second =~= Seq::empty());
        }
    }
    Seq::filter_distributes_over_add(to, cc, keep);
    assert((to.filter(keep) + cc.filter(keep)).map_values(show) =~= first + second);
    let all = to + cc;
    assert forall|a: EmailAddressV| (to.contains(a) || cc.contains(a)) && someone_else(
        a,
        me,
    ) implies #[trigger] others(e, me).contains(a) by {
        if to.contains(a) {
            let i = choose|i: int| 0 <= i < to.len() && to[i] == a;
            assert(all[i] == a);
            all.lemma_filter_contains(keep, i);
        } else {
            let i = choose|i: int| 0 <= i < cc.len() && cc[i] == a;
            assert(all[to.len() + i] == a);
            all.lemma_filter_contains(keep, to.len() + i);
        }
    }
    assert forall|a: EmailAddressV| #[trigger] others(e, me).contains(a) implies (to.contains(a)
        || cc.contains(a)) && someone_else(a, me) by {
        lemma_filtered(all, keep, a);
        if all.contains(a) {
            let i = choose|i: int| 0 <= i < all.len() && all[i] == a;
            if i < to.len() {
                assert(to[i] == a);
            } else {
                assert(cc[i - to.len()] == a);
            }
        }
    }
}

proof fn lemma_filtered<A>(s: Seq<A>, p: spec_fn(A) -> bool, a: A)
    ensures
        s.filter(p).contains(a) ==> s.contains(a) && p(a),
    decreases s.len(),
{
    reveal(Seq::filter);
    if s.len() > 0 {
        lemma_filtered(s.drop_last(), p, a);
        let before = s.drop_last().filter(p);
        if s.filter(p).contains(a) {
            let i = choose|i: int| 0 <= i < s.filter(p).len() && s.filter(p)[i] == a;
            if i < before.len() {
                assert(before[i] == a);
                assert(s.drop_last().contains(a));
                let j = choose|j: int| 0 <= j < s.drop_last().len() && s.drop_last()[j] == a;
                assert(s[j] == a);
            } else {
                assert(s[s.len() - 1] == a);
            }
        }
    } else {
        assert(!Seq::<A>::empty().contains(a));
    }
}

/// The user's own address is what stands in the angle brackets of the sender's line, or
/// the whole line if it is a bare address.
pub proof fn law_own_address_is_found(name: Seq<char>, addr: Seq<char>)
    requires
        !name.contains('<'),
        !addr.contains('<') && !addr.contains('>'),
        trimmed(addr) == addr,
        addr.len() > 0,
    ensures
        address_in(name + seq!['<'] + addr + seq!['>']) == Some(addr),
        addr.contains('@') ==> address_in(addr) == Some(addr),
{
    lemma_bracketed_address(name, addr);
    lemma_no_bracket(addr);
}

proof fn lemma_no_bracket(addr: Seq<char>)
    requires
        !addr.contains('<'),
    ensures
        find(addr, seq!['<']) is None,
{
    let open = seq!['<'];
    lemma_find_from(addr, open, 0);
    if find(addr, open) is Some {
        let j = find(addr, open)->0;
        assert(addr.subrange(j, j + 1)[0] == '<');
        assert(addr[j] == '<');
    }
}

proof fn lemma_bracketed_address(name: Seq<char>, addr: Seq<char>)
    requires
        !name.contains('<'),
    ensures
        ({
            let h = name + seq!['<'] + addr + seq!['>'];
            let n = name.len() as int;
            let m = (name.len() + 1 + addr.len()) as int;
            &&& find(h, seq!['<']) == Some(n)
            &&& rfind(h, seq!['>']) == Some(m)
            &&& h.subrange(n + 1, m) == addr
        }),
{
    let h = name + seq!['<'] + addr + seq!['>'];
    let n = name.len() as int;
    let m = (name.len() + 1 + addr.len()) as int;
    assert(h.len() == m + 1);
    assert(h[n] == '<');
    assert(h[m] == '>');
    assert forall|j: int| 0 <= j < n implies h[j] != '<' by {
        assert(h[j] == name[j]);
        assert(name.contains(name[j]));
    }
    assert(h.subrange(n + 1, m) =~= addr);
    lemma_first_of(h, '<', n);
    lemma_last_of(h, '>');
}

proof fn lemma_first_of(h: Seq<char>, c: char, n: int)
    requires
        0 <= n < h.len(),
        h[n] == c,
        forall|j: int| 0 <= j < n ==> h[j] != c,
    ensures
        find(h, seq![c]) == Some(n),
{
    let p = seq![c];
    lemma_find_from(h, p, 0);
    assert(h.subrange(n, n + 1) =~= p);
    assert(occurs_at(h, p, n));
    let k = find(h, p)->0;
    assert(h.subrange(k, k + 1)[0] == h[k]);
}

proof fn lemma_last_of(h: Seq<char>, c: char)
    requires
        h.len() > 0,
        h.last() == c,
    ensures
        rfind(h, seq![c]) == Some(h.len() - 1),
{
    let p = seq![c];
    let m = h.len() - 1;
    assert(h.subrange(m, m + 1) =~= p);
    assert(occurs_at(h, p, m));
}

// ---------------------------------------------------------------------------
// What a reply answers
// ---------------------------------------------------------------------------

/// A subject is kept, with the prefix before it unless it has that already.
pub proof fn law_reply_keeps_the_subject(s: Seq<char>, prefix: Seq<char>, small: Seq<char>)
    ensures
        !begins(s, prefix) && !begins(s, small) ==> prefixed_subject(Some(s), prefix, small)
            == prefix + s,
        begins(s, prefix) || begins(s, small) ==> prefixed_subject(Some(s), prefix, small) == s,
        prefixed_subject(None, prefix, small) == prefix,
{
}

/// A reply answers the first id of the message, in one pair of angle brackets however
/// many it had. It names the ids that the message names, in order, and then the message's
/// own, unless that was among them.
pub proof fn law_reply_joins_the_thread(e: EmailV, id: Seq<char>, rest: Seq<Seq<char>>, i: int)
    requires
        e.message_id == Some(seq![id] + rest),
    ensures
        answered_id(e) == Some("<"@ + bare_end(bare_start(id)) + ">"@),
        thread_ids(e).contains(answered_id(e)->0),
        ({
            let refs = match e.references {
                Some(rs) => rs,
                None => Seq::empty(),
            };
            &&& refs.len() <= thread_ids(e).len() <= refs.len() + 1
            &&& 0 <= i < refs.len() ==> thread_ids(e)[i] == "<"@ + bare_end(bare_start(refs[i]))
                + ">"@
            &&& thread_ids(e).len() == refs.len() + 1 ==> thread_ids(e).last() == answered_id(e)->0
        }),
{
    assert((seq![id] + rest)[0] == id);
    let own = answered_id(e)->0;
    let refs = match e.references {
        Some(rs) => rs.map_values(|r: Seq<char>| bracketed(r)),
        None => Seq::empty(),
    };
    if !refs.contains(own) {
        assert(refs.push(own)[refs.len() as int] == own);
    }
}

proof fn lemma_bare(id: Seq<char>)
    requires
        id.len() > 0,
        id[0] != '<' && id[0] != '>',
        id.last() != '<' && id.last() != '>',
    ensures
        bare_end(bare_start(id)) == id,
        bare_end(bare_start(seq!['<'] + id + seq!['>'])) == id,
{
    let b = seq!['<'] + id + seq!['>'];
    let tail = id + seq!['>'];
    assert(b[0] == '<');
    assert(b.subrange(1, b.len() as int) =~= tail);
    assert(tail[0] == id[0]);
    assert(bare_start(b) == bare_start(tail));
    assert(bare_start(tail) == tail);
    assert(tail.last() == '>');
    assert(tail.drop_last() =~= id);
    assert(bare_end(tail) == bare_end(id));
}

/// An id is put in angle brackets whether it had them or not.
pub proof fn law_ids_have_one_pair_of_brackets(id: Seq<char>)
    requires
        id.len() > 0,
        id[0] != '<' && id[0] != '>',
        id.last() != '<' && id.last() != '>',
    ensures
        bracketed(id) == "<"@ + id + ">"@,
        bracketed(seq!['<'] + id + seq!['>']) == "<"@ + id + ">"@,
{
    lemma_bare(id);
}

// ---------------------------------------------------------------------------
// Drafts as a whole
// ---------------------------------------------------------------------------

/// Where a reply goes: to those that the message asks replies to go to, or else to its
/// senders.
pub open spec fn answer_to(e: EmailV) -> Seq<EmailAddressV> {
    match e.reply_to {
        Some(list) => list,
        None => listed(e.from),
    }
}

/// A line with a name and a value, or nothing where the value is empty.
pub open spec fn line_unless_empty(name: Seq<char>, value: Seq<char>) -> Seq<char> {
    if value.len() > 0 {
        name + value + "\n"@
    } else {
        Seq::empty()
    }
}

/// The addresses as one text.
pub open spec fn written(list: Seq<EmailAddressV>) -> Seq<char> {
    joined(list.map_values(|a: EmailAddressV| shown_address(a)), ", "@)
}

/// A reply is from the user, goes to those who are to be answered and, if it is to all,
/// to everyone else, has the subject, the id and the thread of the message, and quotes
/// its text below a line that says when it was sent and by whom.
pub proof fn law_reply_is_complete(e: EmailV, all: bool, from: Seq<char>)
    ensures
        ({
            let copied = if all {
                written(others(e, address_in(from)))
            } else {
                Seq::empty()
            };
            let date = if e.sent_at is Some {
                e.sent_at->0
            } else if e.received_at is Some {
                e.received_at->0
            } else {
                "(unknown date)"@
            };
            let who = if listed(e.from).len() > 0 {
                shown_address(listed(e.from)[0])
            } else {
                "(unknown)"@
            };
            let answered = if answered_id(e) is Some {
                "In-Reply-To: "@ + answered_id(e)->0 + "\n"@
            } else {
                Seq::empty()
            };
            let thread = if thread_ids(e).len() > 0 {
                "References: "@ + joined(thread_ids(e), " "@) + "\n"@
            } else {
                Seq::empty()
            };
            reply_draft(e, all, from) == "From: "@ + from + "\nTo: "@ + written(answer_to(e))
                + "\n"@ + line_unless_empty("Cc: "@, copied) + "Subject: "@ + prefixed_subject(
                e.subject,
                "Re: "@,
                "re: "@,
            ) + "\n"@ + answered + thread + "--text follows this line--\n"@ + "\nOn "@ + date
                + ", "@ + who + " wrote:\n"@ + quoted(body_text(e)) + "\n"@
        }),
{
    law_reply_to_all_reaches_everyone_else(e, from);
    crate::laws::rules::law_joined(Seq::empty(), Seq::empty(), Seq::empty(), ", "@);
    let none = Seq::<EmailAddressV>::empty();
    assert(none.map_values(|a: EmailAddressV| shown_address(a)) =~= Seq::<Seq<char>>::empty());
}

/// A forwarded message carries its senders, its date, its subject, its recipients and its
/// text along, unquoted, and is to nobody yet; a new message is empty.
pub proof fn law_forward_is_complete(e: EmailV, from: Seq<char>)
    ensures
        ({
            let date = if e.sent_at is Some {
                e.sent_at->0
            } else if e.received_at is Some {
                e.received_at->0
            } else {
                "(unknown date)"@
            };
            let senders = if e.from is Some {
                written(e.from->0)
            } else {
                "(unknown)"@
            };
            let subject = if e.subject is Some {
                e.subject->0
            } else {
                "(no subject)"@
            };
            forward_draft(e, from) == "From: "@ + from + "\nTo: \nSubject: "@ + prefixed_subject(
                e.subject,
                "Fwd: "@,
                "fwd: "@,
            ) + "\n"@ + "--text follows this line--\n"@
                + "\n---------- Forwarded message ----------\n"@ + "From: "@ + senders
                + "\nDate: "@ + date + "\nSubject: "@ + subject + "\nTo: "@ + written(listed(e.to))
                + "\n"@ + line_unless_empty("Cc: "@, written(listed(e.cc))) + "\n"@ + body_text(e)
                + "\n"@
        }),
        compose_draft(from) == "From: "@ + from
            + "\nTo: \nCc: \nSubject: \n--text follows this line--\n\n"@,
{
    crate::laws::rules::law_joined(Seq::empty(), Seq::empty(), Seq::empty(), ", "@);
    let none = Seq::<EmailAddressV>::empty();
    assert(none.map_values(|a: EmailAddressV| shown_address(a)) =~= Seq::<Seq<char>>::empty());
}

} // verus!
