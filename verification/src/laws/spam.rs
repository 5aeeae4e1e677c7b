//! Telling spam from other mail: which words of a message are its tokens, and what the
//! model counts of them.

use vstd::prelude::*;

use crate::data::lookup;
use crate::spam::{
    counts_of, evidence_upto, head_and_body, header_tokens_upto, holding_upto, kind_upto,
    law_training_counts_each_token_once, law_trainings_add_up, model_ok, token_char, tokens_of,
    trained, trained_upto, visible_upto, with_header_line, words_from, Label, SpamModelV,
    TokenCounts,
};
use crate::text::{
    ascii_lower, char_lowercase, cut, find, has, lemma_find_from, lemma_has_iff_found, occurs_at,
    trimmed,
};

verus! {

// ---------------------------------------------------------------------------
// Words
// ---------------------------------------------------------------------------

/// The word that characters make, each in small letters.
pub open spec fn small(s: Seq<char>) -> Seq<char>
    decreases s.len(),
{
    if s.len() == 0 {
        Seq::empty()
    } else {
        small(s.drop_last()) + char_lowercase(s.last())
    }
}

/// The tokens once a word has come: a word of two to forty characters is a token, under
/// its mark if it has one, and is one once.
pub open spec fn taken(acc: Seq<Seq<char>>, word: Seq<char>, mark: Option<Seq<char>>) -> Seq<
    Seq<char>,
> {
    let token = match mark {
        Some(m) => m + ":"@ + word,
        None => word,
    };
    if word.len() < 2 || word.len() > 40 || acc.contains(token) {
        acc
    } else {
        acc.push(token)
    }
}

proof fn lemma_run(
    a: Seq<char>,
    s: Seq<char>,
    i: int,
    mark: Option<Seq<char>>,
    acc: Seq<Seq<char>>,
)
    requires
        0 <= i <= a.len(),
        forall|j: int| 0 <= j < a.len() ==> token_char(#[trigger] a[j]),
    ensures
        words_from(a + s, i, small(a.take(i)), mark, acc) == words_from(
            a + s,
            a.len() as int,
            small(a),
            mark,
            acc,
        ),
    decreases a.len() - i,
{
    if i < a.len() {
        let t = a + s;
        assert(t[i] == a[i]);
        assert(token_char(a[i]));
        assert(a.take(i + 1).drop_last() =~= a.take(i));
        assert(a.take(i + 1).last() == a[i]);
        lemma_run(a, s, i + 1, mark, acc);
    } else {
        assert(a.take(i) =~= a);
    }
}

proof fn lemma_shift(
    a: Seq<char>,
    s: Seq<char>,
    i: int,
    word: Seq<char>,
    mark: Option<Seq<char>>,
    acc: Seq<Seq<char>>,
)
    requires
        0 <= i <= s.len(),
    ensures
        words_from(a + s, a.len() + i, word, mark, acc) == words_from(s, i, word, mark, acc),
    decreases s.len() - i,
{
    if i < s.len() {
        assert((a + s)[a.len() + i] == s[i]);
        if token_char(s[i]) {
            lemma_shift(a, s, i + 1, word + char_lowercase(s[i]), mark, acc);
        } else {
            lemma_shift(
                a,
                s,
                i + 1,
                Seq::empty(),
                mark,
                crate::spam::with_word(acc, word, mark),
            );
        }
    }
}

/// Words are the longest runs of letters, digits and a few signs: a run that ends at
/// another character, or at the end of the text, is taken as one word in small letters,
/// and the words of what follows come after it.
pub proof fn law_words_are_whole_runs(
    a: Seq<char>,
    c: char,
    s: Seq<char>,
    mark: Option<Seq<char>>,
    acc: Seq<Seq<char>>,
)
    requires
        forall|j: int| 0 <= j < a.len() ==> token_char(#[trigger] a[j]),
        !token_char(c),
    ensures
        words_from(a, 0, Seq::empty(), mark, acc) == taken(acc, small(a), mark),
        words_from(a + seq![c] + s, 0, Seq::empty(), mark, acc) == words_from(
            s,
            0,
            Seq::empty(),
            mark,
            taken(acc, small(a), mark),
        ),
{
    assert(a.take(0) =~= Seq::empty());
    assert(small(a.take(0)) == Seq::<char>::empty());
    let none = Seq::<char>::empty();
    lemma_run(a, none, 0, mark, acc);
    assert(a + none =~= a);
    let rest = seq![c] + s;
    lemma_run(a, rest, 0, mark, acc);
    assert(a + rest =~= a + seq![c] + s);
    let t = a + rest;
    assert(t[a.len() as int] == c);
    let front = a + seq![c];
    lemma_shift(front, s, 0, Seq::empty(), mark, taken(acc, small(a), mark));
    assert(front + s =~= t);
}

/// The words of a header are tokens under the mark of the header: those of the sender, of
/// the reply address, of the recipients, of the subject and of the other headers that
/// tell mail apart, each under its own. Headers without a mark give no tokens.
pub proof fn law_header_words_are_marked(
    hs: Seq<(Seq<char>, Seq<char>)>,
    name: Seq<char>,
    value: Seq<char>,
)
    ensures
        ({
            let before = header_tokens_upto(hs, hs.len() as int);
            let after = header_tokens_upto(hs.push((name, value)), (hs.len() + 1) as int);
            let with = |mark: Seq<char>|
                after == words_from(value, 0, Seq::empty(), Some(mark), before);
            &&& name == "from"@ || name == "sender"@ || name == "return-path"@ ==> with("from"@)
            &&& name == "reply-to"@ ==> with("rply"@)
            &&& name == "to"@ || name == "cc"@ ==> with("to"@)
            &&& name == "subject"@ ==> with("subj"@)
            &&& name == "received"@ ==> with("recv"@)
            &&& name == "list-id"@ || name == "list-unsubscribe"@ ==> with("list"@)
            &&& name == "content-type"@ ==> with("ctype"@)
            &&& name == "date"@ || name == "message-id"@ ==> after == before
        }),
{
    let more = hs.push((name, value));
    lemma_header_prefix(hs, more, hs.len() as int);
    assert(more[hs.len() as int] == (name, value));
    lemma_header_names();
}

proof fn lemma_header_prefix(
    hs: Seq<(Seq<char>, Seq<char>)>,
    more: Seq<(Seq<char>, Seq<char>)>,
    k: int,
)
    requires
        0 <= k <= hs.len() <= more.len(),
        forall|i: int| 0 <= i < hs.len() ==> #[trigger] more[i] == hs[i],
    ensures
        header_tokens_upto(more, k) == header_tokens_upto(hs, k),
    decreases k,
{
    if k > 0 {
        lemma_header_prefix(hs, more, k - 1);
        assert(more[k - 1] == hs[k - 1]);
    }
}

proof fn lemma_header_names()
    ensures
        "from"@.len() == 4 && "sender"@.len() == 6 && "return-path"@.len() == 11,
        "reply-to"@.len() == 8 && "to"@.len() == 2 && "cc"@.len() == 2 && "subject"@.len() == 7,
        "reply-to"@[3] == 'l' && "received"@[3] == 'e',
        "received"@.len() == 8 && "authentication-results"@.len() == 22,
        "received-spf"@.len() == 12 && "dkim-signature"@.len() == 14,
        "list-id"@.len() == 7 && "list-unsubscribe"@.len() == 16 && "content-type"@.len() == 12,
        "subject"@[0] == 's' && "list-id"@[0] == 'l',
        "received-spf"@[0] == 'r' && "content-type"@[0] == 'c',
        "x-mailer"@.len() == 8 && "x-mailer"@[0] == 'x' && "reply-to"@[0] == 'r',
        "received"@[0] == 'r' && "user-agent"@.len() == 10 && "user-agent"@[0] == 'u',
        "date"@.len() == 4 && "date"@[0] == 'd' && "from"@[0] == 'f',
        "message-id"@.len() == 10 && "message-id"@[0] == 'm',
{
    reveal_strlit("from");
    reveal_strlit("sender");
    reveal_strlit("return-path");
    reveal_strlit("reply-to");
    reveal_strlit("to");
    reveal_strlit("cc");
    reveal_strlit("subject");
    reveal_strlit("received");
    reveal_strlit("authentication-results");
    reveal_strlit("received-spf");
    reveal_strlit("dkim-signature");
    reveal_strlit("list-id");
    reveal_strlit("list-unsubscribe");
    reveal_strlit("content-type");
    reveal_strlit("x-mailer");
    reveal_strlit("user-agent");
    reveal_strlit("date");
    reveal_strlit("message-id");
}

proof fn lemma_visible_prefix(s: Seq<char>, t: Seq<char>, k: int)
    requires
        0 <= k <= s.len() <= t.len(),
        forall|i: int| 0 <= i < s.len() ==> #[trigger] t[i] == s[i],
    ensures
        visible_upto(t, k) == visible_upto(s, k),
    decreases k,
{
    if k > 0 {
        lemma_visible_prefix(s, t, k - 1);
        assert(t[k - 1] == s[k - 1]);
    }
}

proof fn lemma_visible_add(s: Seq<char>, t: Seq<char>, k: int)
    requires
        0 <= k <= t.len(),
        !visible_upto(s, s.len() as int).1,
    ensures
        visible_upto(s + t, s.len() + k) == (
            visible_upto(s, s.len() as int).0 + visible_upto(t, k).0,
            visible_upto(t, k).1,
        ),
    decreases k,
{
    let all = s + t;
    if k > 0 {
        lemma_visible_add(s, t, k - 1);
        assert(all[s.len() + k - 1] == t[k - 1]);
        let front = visible_upto(s, s.len() as int).0;
        let back = visible_upto(t, k - 1).0;
        assert((front + back).push(t[k - 1]) =~= front + back.push(t[k - 1]));
    } else {
        lemma_visible_prefix(s, all, s.len() as int);
        assert(visible_upto(s, s.len() as int).0 + Seq::<char>::empty() =~= visible_upto(
            s,
            s.len() as int,
        ).0);
    }
}

proof fn lemma_visible_plain(s: Seq<char>, k: int)
    requires
        0 <= k <= s.len(),
        !s.contains('<') && !s.contains('>'),
    ensures
        visible_upto(s, k) == (s.take(k), false),
    decreases k,
{
    if k > 0 {
        lemma_visible_plain(s, k - 1);
        assert(s.contains(s[k - 1]));
        assert(s.take(k) =~= s.take(k - 1).push(s[k - 1]));
    } else {
        assert(s.take(0) =~= Seq::empty());
    }
}

proof fn lemma_visible_tag(tag: Seq<char>, k: int)
    requires
        0 <= k <= tag.len(),
        !tag.contains('<') && !tag.contains('>'),
    ensures
        visible_upto(seq!['<'] + tag, k + 1) == (Seq::<char>::empty(), true),
    decreases k,
{
    let t = seq!['<'] + tag;
    if k > 0 {
        lemma_visible_tag(tag, k - 1);
        assert(t[k] == tag[k - 1]);
        assert(tag.contains(tag[k - 1]));
    } else {
        assert(t[0] == '<');
        assert(visible_upto(t, 0) == (Seq::<char>::empty(), false));
    }
}

/// Text outside of tags is looked at as it is, and tags are taken out.
pub proof fn law_tags_are_not_looked_at(a: Seq<char>, tag: Seq<char>, s: Seq<char>)
    requires
        !a.contains('<') && !a.contains('>'),
        !tag.contains('<') && !tag.contains('>'),
    ensures
        visible_upto(a, a.len() as int).0 == a,
        ({
            let t = a + (seq!['<'] + tag + seq!['>']) + s;
            visible_upto(t, t.len() as int).0 == a + visible_upto(s, s.len() as int).0
        }),
{
    lemma_visible_plain(a, a.len() as int);
    assert(a.take(a.len() as int) =~= a);
    let open = seq!['<'] + tag;
    let whole = open + seq!['>'];
    lemma_visible_tag(tag, tag.len() as int);
    lemma_visible_prefix(open, whole, open.len() as int);
    assert(whole[open.len() as int] == '>');
    assert(visible_upto(whole, whole.len() as int) == (Seq::<char>::empty(), false));
    lemma_visible_add(a, whole, whole.len() as int);
    let front = a + whole;
    assert(visible_upto(front, front.len() as int) == (a, false)) by {
        assert(a + Seq::<char>::empty() =~= a);
    }
    lemma_visible_add(front, s, s.len() as int);
    assert((front + s).len() == front.len() + s.len());
}

// ---------------------------------------------------------------------------
// Headers
// ---------------------------------------------------------------------------

/// A header line gives the header of its name, in small letters, with the value behind
/// the first colon; a line that begins with white space goes on the header before it.
pub proof fn law_header_lines_are_read(
    out: Seq<(Seq<char>, Seq<char>)>,
    name: Seq<char>,
    value: Seq<char>,
    line: Seq<char>,
)
    requires
        !name.contains(':'),
        name.len() > 0,
        name[0] != ' ' && name[0] != '\t',
        line.len() > 0,
        line[0] == ' ' || line[0] == '\t',
    ensures
        with_header_line(out, name + seq![':'] + value) == out.push(
            (ascii_lower(trimmed(name)), trimmed(value)),
        ),
        out.len() > 0 ==> with_header_line(out, line) == out.drop_last().push(
            (out.last().0, out.last().1 + seq![' '] + trimmed(line)),
        ),
{
    let t = name + seq![':'] + value;
    let colon = seq![':'];
    let p = name.len() as int;
    assert(t[0] == name[0]);
    assert(t[p] == ':');
    lemma_find_from(t, colon, 0);
    assert(t.subrange(p, p + 1) =~= colon);
    assert(occurs_at(t, colon, p));
    let k = find(t, colon)->0;
    assert(t.subrange(k, k + 1)[0] == t[k]);
    assert(k == p) by {
        if k < p {
            assert(name[k] == ':');
        }
    }
    assert(t.subrange(0, p) =~= name);
    assert(t.subrange(p + 1, t.len() as int) =~= value);
    if out.len() > 0 {
        let e = (out.last().0, out.last().1.push(' ') + trimmed(line));
        assert(out.last().1.push(' ') =~= out.last().1 + seq![' ']);
        assert(out.update(out.len() - 1, e) =~= out.drop_last().push(e));
    }
}

// ---------------------------------------------------------------------------
// Counts
// ---------------------------------------------------------------------------

/// Learning from spam raises the number of spam messages, and for each token of the
/// message the number of spam messages that held it, by one; other mail raises the other
/// numbers. Nothing else changes.
pub proof fn law_learning_raises_its_own_counts(m: SpamModelV, raw: Seq<char>, t: Seq<char>)
    requires
        m.spam_messages < u32::MAX,
        m.ham_messages < u32::MAX,
        counts_of(m.tokens, t).spam < u32::MAX,
        counts_of(m.tokens, t).ham < u32::MAX,
    ensures
        ({
            let old = match lookup(m.tokens, t) {
                Some(c) => c,
                None => TokenCounts { spam: 0, ham: 0 },
            };
            let spam = trained(m, raw, Label::Spam);
            let ham = trained(m, raw, Label::Ham);
            &&& spam.spam_messages == m.spam_messages + 1 && spam.ham_messages == m.ham_messages
            &&& ham.ham_messages == m.ham_messages + 1 && ham.spam_messages == m.spam_messages
            &&& tokens_of(raw).contains(t) ==> lookup(spam.tokens, t) == Some(
                TokenCounts { spam: (old.spam + 1) as u32, ham: old.ham },
            ) && lookup(ham.tokens, t) == Some(
                TokenCounts { spam: old.spam, ham: (old.ham + 1) as u32 },
            )
            &&& !tokens_of(raw).contains(t) ==> lookup(spam.tokens, t) == lookup(m.tokens, t)
                && lookup(ham.tokens, t) == lookup(m.tokens, t)
        }),
{
    law_training_counts_each_token_once(m, raw, Label::Spam, t);
    law_training_counts_each_token_once(m, raw, Label::Ham, t);
}

proof fn lemma_evidence(
    tokens: Seq<(Seq<char>, TokenCounts)>,
    ts: Seq<Seq<char>>,
    k: int,
)
    requires
        0 <= k <= ts.len(),
    ensures
        evidence_upto(tokens, ts, k) == ts.take(k).filter(
            |t: Seq<char>| counts_of(tokens, t).spam > 0 || counts_of(tokens, t).ham > 0,
        ).map_values(|t: Seq<char>| counts_of(tokens, t)),
    decreases k,
{
    let held = |t: Seq<char>| counts_of(tokens, t).spam > 0 || counts_of(tokens, t).ham > 0;
    let counts = |t: Seq<char>| counts_of(tokens, t);
    reveal(Seq::filter);
    if k > 0 {
        lemma_evidence(tokens, ts, k - 1);
        assert(ts.take(k).drop_last() =~= ts.take(k - 1));
        assert(ts.take(k).last() == ts[k - 1]);
        let before = ts.take(k - 1).filter(held);
        assert(before.push(ts[k - 1]).map_values(counts) =~= before.map_values(counts).push(
            counts(ts[k - 1]),
        ));
    } else {
        assert(ts.take(0) =~= Seq::empty());
        assert(Seq::<Seq<char>>::empty().filter(held).map_values(counts) =~= Seq::empty());
    }
}

/// A message is scored by the counts of those of its tokens that some message held, in
/// the order of the tokens.
pub proof fn law_evidence_is_what_was_held(
    tokens: Seq<(Seq<char>, TokenCounts)>,
    ts: Seq<Seq<char>>,
)
    ensures
        evidence_upto(tokens, ts, ts.len() as int) == ts.filter(
            |t: Seq<char>| counts_of(tokens, t).spam > 0 || counts_of(tokens, t).ham > 0,
        ).map_values(|t: Seq<char>| counts_of(tokens, t)),
{
    lemma_evidence(tokens, ts, ts.len() as int);
    assert(ts.take(ts.len() as int) =~= ts);
}

// ---------------------------------------------------------------------------
// Parts of a message
// ---------------------------------------------------------------------------

/// The head of a message ends at its first empty line, and the body is all behind it; a
/// message without an empty line is all head.
pub proof fn law_body_is_behind_the_empty_line(raw: Seq<char>)
    ensures
        ({
            let (head, body) = head_and_body(raw);
            let (wide, narrow) = ("\r\n\r\n"@, "\n\n"@);
            let without = |s: Seq<char>, p: Seq<char>| has(s, p) == false;
            &&& has(raw, wide) ==> raw == head + wide + body && without(head, wide)
            &&& without(raw, wide) && has(raw, narrow) ==> raw == head + narrow + body && without(
                head,
                narrow,
            )
            &&& without(raw, wide) && without(raw, narrow) ==> head == raw && body.len() == 0
        }),
{
    reveal_strlit("\r\n\r\n");
    reveal_strlit("\n\n");
    lemma_cut(raw, "\r\n\r\n"@);
    lemma_cut(raw, "\n\n"@);
}

proof fn lemma_cut(s: Seq<char>, p: Seq<char>)
    ensures
        cut(s, p) is Some <==> has(s, p),
        cut(s, p) matches Some((a, b)) ==> s == a + p + b && (p.len() > 0 ==> has(a, p) == false),
{
    lemma_has_iff_found(s, p);
    lemma_find_from(s, p, 0);
    if let Some((a, b)) = cut(s, p) {
        let k = find(s, p)->0;
        assert(s =~= a + p + b) by {
            assert(s.subrange(k, k + p.len()) == p);
            assert forall|i: int| 0 <= i < p.len() implies s[k + i] == p[i] by {
                assert(s.subrange(k, k + p.len())[i] == p[i]);
            }
        }
        if p.len() > 0 && has(a, p) {
            let j = choose|j: int| #[trigger] occurs_at(a, p, j);
            assert(a.subrange(j, j + p.len()) =~= s.subrange(j, j + p.len()));
            assert(occurs_at(s, p, j));
        }
    }
}

/// The messages of a kind.
pub open spec fn of_kind(list: Seq<(Seq<char>, Label)>, label: Label) -> Seq<(Seq<char>, Label)> {
    list.filter(|x: (Seq<char>, Label)| x.1 == label)
}

/// The messages of a kind that hold a token.
pub open spec fn of_kind_with(list: Seq<(Seq<char>, Label)>, label: Label, t: Seq<char>) -> Seq<
    (Seq<char>, Label),
> {
    list.filter(|x: (Seq<char>, Label)| x.1 == label && tokens_of(x.0).contains(t))
}

proof fn lemma_kinds(list: Seq<(Seq<char>, Label)>, t: Seq<char>, label: Label, k: int)
    requires
        0 <= k <= list.len(),
    ensures
        kind_upto(list, label, k) == of_kind(list.take(k), label).len(),
        holding_upto(list, t, label, k) == of_kind_with(list.take(k), label, t).len(),
    decreases k,
{
    reveal(Seq::filter);
    if k > 0 {
        lemma_kinds(list, t, label, k - 1);
        assert(list.take(k).drop_last() =~= list.take(k - 1));
        assert(list.take(k).last() == list[k - 1]);
    } else {
        assert(list.take(0) =~= Seq::empty());
    }
}

/// After learning from a list of messages the model counts as many messages of a kind more
/// as the list has, and of each token as many as hold it.
pub proof fn law_lists_are_learnt_from_whole(
    m: SpamModelV,
    list: Seq<(Seq<char>, Label)>,
    t: Seq<char>,
)
    requires
        model_ok(m),
        m.spam_messages + list.len() <= u32::MAX,
        m.ham_messages + list.len() <= u32::MAX,
    ensures
        ({
            let n = trained_upto(m, list, list.len() as int);
            let (before, after) = (counts_of(m.tokens, t), counts_of(n.tokens, t));
            &&& n.spam_messages == m.spam_messages + of_kind(list, Label::Spam).len()
            &&& n.ham_messages == m.ham_messages + of_kind(list, Label::Ham).len()
            &&& after.spam == before.spam + of_kind_with(list, Label::Spam, t).len()
            &&& after.ham == before.ham + of_kind_with(list, Label::Ham, t).len()
        }),
{
    let k = list.len() as int;
    assert(list.take(k) =~= list);
    lemma_kinds(list, t, Label::Spam, k);
    lemma_kinds(list, t, Label::Ham, k);
    lemma_kind_bound(list, Label::Spam, k);
    lemma_kind_bound(list, Label::Ham, k);
    law_trainings_add_up(m, list, k, t, Label::Spam);
    law_trainings_add_up(m, list, k, t, Label::Ham);
}

proof fn lemma_kind_bound(list: Seq<(Seq<char>, Label)>, label: Label, k: int)
    requires
        0 <= k,
    ensures
        kind_upto(list, label, k) <= k,
    decreases k,
{
    if k > 0 {
        lemma_kind_bound(list, label, k - 1);
    }
}

} // verus!
