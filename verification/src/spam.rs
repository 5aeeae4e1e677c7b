//! A Bayesian classifier for unwanted mail: how messages are taken apart into
//! tokens, and what the model keeps of them.
//!
//! The model counts, for each token, the messages of either kind that held it.
//! Scores are computed from these counts with floating point, outside this crate.

use vstd::prelude::*;
use vstd::utf8::{decode_utf8, valid_utf8};

use crate::data::{at, lemma_lookup_with_entry, lookup, no_items, put, with_entry, Dup, StrMap};
use crate::compose::{join_path, path_join};
use crate::text::{
    alphanumeric, ascii_lower, char_lowercase, cut, from_utf8_lossy, lines, lines_of, list_contains,
    lower_of, same, split_once, to_ascii_lowercase, to_chars, trim, trimmed, utf8_lossy,
};

verus! {

broadcast use vstd::seq_lib::group_seq_properties;

/// What a message that the model learns from is.
#[derive(Debug, Clone, Copy, PartialEq, Eq, Structural)]
pub enum Label {
    Spam,
    Ham,
}

/// What the classifier says of a message.
#[derive(Debug, Clone, Copy, PartialEq, Eq, Structural)]
pub enum Verdict {
    Spam,
    Ham,
    Unsure,
}

/// The word for a verdict.
pub open spec fn verdict_word(v: Verdict) -> Seq<char> {
    match v {
        Verdict::Spam => "spam"@,
        Verdict::Ham => "ham"@,
        Verdict::Unsure => "unsure"@,
    }
}

impl Verdict {
    /// The word for a verdict.
    pub fn as_str(&self) -> (r: &'static str)
        ensures
            r@ == verdict_word(*self),
    {
        match self {
            Verdict::Spam => "spam",
            Verdict::Ham => "ham",
            Verdict::Unsure => "unsure",
        }
    }
}

/// A message as it came over the wire.
#[derive(Debug)]
pub struct RawMessage {
    raw: String,
}

impl View for RawMessage {
    type V = Seq<char>;

    closed spec fn view(&self) -> Seq<char> {
        self.raw@
    }
}

impl RawMessage {
    /// The message that the bytes hold.
    pub fn from_bytes(bytes: &[u8]) -> (r: RawMessage)
        ensures
            r@ == utf8_lossy(bytes@),
            valid_utf8(bytes@) ==> r@ == decode_utf8(bytes@),
    {
        RawMessage { raw: from_utf8_lossy(bytes) }
    }
}

// ---------------------------------------------------------------------------
// Tokens
// ---------------------------------------------------------------------------

/// The mark for the words of a header; headers without one are passed over.
pub open spec fn header_mark(name: Seq<char>) -> Option<Seq<char>> {
    if name == "from"@ || name == "sender"@ || name == "return-path"@ {
        Some("from"@)
    } else if name == "reply-to"@ {
        Some("rply"@)
    } else if name == "to"@ || name == "cc"@ {
        Some("to"@)
    } else if name == "subject"@ {
        Some("subj"@)
    } else if name == "received"@ {
        Some("recv"@)
    } else if name == "authentication-results"@ || name == "received-spf"@ || name
        == "dkim-signature"@ {
        Some("auth"@)
    } else if name == "list-id"@ || name == "list-unsubscribe"@ {
        Some("list"@)
    } else if name == "content-type"@ {
        Some("ctype"@)
    } else if name == "x-mailer"@ || name == "user-agent"@ {
        Some("mailer"@)
    } else {
        None
    }
}

/// The mark for the words of a header; headers without one are passed over.
pub fn header_prefix(name: &str) -> (r: Option<&'static str>)
    ensures
        match r {
            Some(p) => header_mark(name@) == Some(p@),
            None => header_mark(name@) is None,
        },
{
    if same(name, "from") || same(name, "sender") || same(name, "return-path") {
        Some("from")
    } else if same(name, "reply-to") {
        Some("rply")
    } else if same(name, "to") || same(name, "cc") {
        Some("to")
    } else if same(name, "subject") {
        Some("subj")
    } else if same(name, "received") {
        Some("recv")
    } else if same(name, "authentication-results") || same(name, "received-spf") || same(
        name,
        "dkim-signature",
    ) {
        Some("auth")
    } else if same(name, "list-id") || same(name, "list-unsubscribe") {
        Some("list")
    } else if same(name, "content-type") {
        Some("ctype")
    } else if same(name, "x-mailer") || same(name, "user-agent") {
        Some("mailer")
    } else {
        None
    }
}

/// The headers and the body, which the first blank line parts.
pub open spec fn head_and_body(raw: Seq<char>) -> (Seq<char>, Seq<char>) {
    match cut(raw, "\r\n\r\n"@) {
        Some(p) => p,
        None => match cut(raw, "\n\n"@) {
            Some(p) => p,
            None => (raw, Seq::empty()),
        },
    }
}

/// The headers and the body, which the first blank line parts.
pub fn split_headers_body(raw: &str) -> (r: (String, String))
    ensures
        (r.0@, r.1@) == head_and_body(raw@),
{
    match split_once(raw, "\r\n\r\n") {
        Some(p) => p,
        None => match split_once(raw, "\n\n") {
            Some(p) => p,
            None => (raw.to_owned(), String::new()),
        },
    }
}

/// Whether a line continues the header before it.
pub open spec fn folded(line: Seq<char>) -> bool {
    line.len() > 0 && (line[0] == ' ' || line[0] == '\t')
}

/// The headers with one more line.
pub open spec fn with_header_line(
    out: Seq<(Seq<char>, Seq<char>)>,
    line: Seq<char>,
) -> Seq<(Seq<char>, Seq<char>)> {
    if folded(line) {
        if out.len() > 0 {
            out.update(out.len() - 1, (out.last().0, out.last().1.push(' ') + trimmed(line)))
        } else {
            out
        }
    } else {
        match cut(line, seq![':']) {
            Some((name, value)) => out.push((ascii_lower(trimmed(name)), trimmed(value))),
            None => out,
        }
    }
}

/// The headers that the first `k` lines hold.
pub open spec fn headers_upto(ls: Seq<Seq<char>>, k: int) -> Seq<(Seq<char>, Seq<char>)>
    decreases k,
{
    if k <= 0 {
        Seq::empty()
    } else {
        with_header_line(headers_upto(ls, k - 1), ls[k - 1])
    }
}

/// The headers of a message, their names in small letters, in the order in which
/// they stand; continuation lines are joined to their header.
pub fn parse_headers(headers: &str) -> (r: Vec<(String, String)>)
    ensures
        r.deep_view() == headers_upto(lines_of(headers@), lines_of(headers@).len() as int),
{
    let ls = lines(headers);
    let mut out: Vec<(String, String)> = no_items();
    let mut i: usize = 0;
    while i < ls.len()
        invariant
            i <= ls@.len(),
            ls.deep_view() == lines_of(headers@),
            out.deep_view() == headers_upto(lines_of(headers@), i as int),
        decreases ls@.len() - i,
    {
        let line = at(ls.as_slice(), i);
        let v = to_chars(line.as_str());
        let ghost before = out.deep_view();
        if v.len() > 0 && (v[0] == ' ' || v[0] == '\t') {
            if out.len() > 0 {
                let last: usize = out.len() - 1;
                assert(before[last as int] == out@[last as int].deep_view());
                let name = out[last].0.clone();
                let mut value = out[last].1.clone();
                value.push(' ');
                value.append(trim(line.as_str()).as_str());
                out.set(last, (name, value));
                assert(out.deep_view() =~= with_header_line(before, line@));
            }
        } else {
            proof {
                reveal_strlit(":");
                assert(":"@ =~= seq![':']);
            }
            match split_once(line.as_str(), ":") {
                Some((name, value)) => {
                    put(
                        &mut out,
                        (to_ascii_lowercase(trim(name.as_str()).as_str()), trim(value.as_str())),
                    );
                },
                None => {},
            }
        }
        i = i + 1;
    }
    out
}

/// What is left of the first `k` characters once tags are taken out, and whether
/// a tag is still open there.
pub open spec fn visible_upto(s: Seq<char>, k: int) -> (Seq<char>, bool)
    decreases k,
{
    if k <= 0 {
        (Seq::empty(), false)
    } else {
        let (out, in_tag) = visible_upto(s, k - 1);
        let c = s[k - 1];
        if c == '<' {
            (out, true)
        } else if c == '>' {
            (out, false)
        } else if in_tag {
            (out, true)
        } else {
            (out.push(c), false)
        }
    }
}

/// The text without its tags.
pub fn strip_html(input: &str) -> (r: String)
    ensures
        r@ == visible_upto(input@, input@.len() as int).0,
{
    let v = to_chars(input);
    let mut out = String::new();
    let mut in_tag = false;
    let mut i: usize = 0;
    while i < v.len()
        invariant
            v@ == input@,
            i <= v@.len(),
            (out@, in_tag) == visible_upto(input@, i as int),
        decreases v@.len() - i,
    {
        let c = v[i];
        if c == '<' {
            in_tag = true;
        } else if c == '>' {
            in_tag = false;
        } else if !in_tag {
            out.push(c);
        }
        i = i + 1;
    }
    out
}

/// Whether a character can stand in a token.
pub open spec fn token_char(c: char) -> bool {
    alphanumeric(c) || c == '$' || c == '!' || c == '\'' || c == '_' || c == '-' || c == '.' || c
        == '@' || c == '/'
}

/// Whether a character can stand in a token.
pub fn is_token_char(ch: char) -> (r: bool)
    ensures
        r == token_char(ch),
{
    ch.is_alphanumeric() || ch == '$' || ch == '!' || ch == '\'' || ch == '_' || ch == '-' || ch
        == '.' || ch == '@' || ch == '/'
}

/// A word with its mark.
pub open spec fn marked(word: Seq<char>, mark: Option<Seq<char>>) -> Seq<char> {
    match mark {
        Some(p) => p + ":"@ + word,
        None => word,
    }
}

/// The tokens with a word, if it is neither too short nor too long.
pub open spec fn with_word(
    acc: Seq<Seq<char>>,
    word: Seq<char>,
    mark: Option<Seq<char>>,
) -> Seq<Seq<char>> {
    if 2 <= word.len() <= 40 && !acc.contains(marked(word, mark)) {
        acc.push(marked(word, mark))
    } else {
        acc
    }
}

/// The tokens with the words of `s` from `i` on, the first of which goes on from
/// `word`.
pub open spec fn words_from(
    s: Seq<char>,
    i: int,
    word: Seq<char>,
    mark: Option<Seq<char>>,
    acc: Seq<Seq<char>>,
) -> Seq<Seq<char>>
    decreases s.len() - i,
{
    if i >= s.len() {
        with_word(acc, word, mark)
    } else if token_char(s[i]) {
        words_from(s, i + 1, word + char_lowercase(s[i]), mark, acc)
    } else {
        words_from(s, i + 1, Seq::empty(), mark, with_word(acc, word, mark))
    }
}

fn add_word(set: &mut Vec<String>, word: &str, prefix: Option<&str>)
    ensures
        final(set).deep_view() == with_word(old(set).deep_view(), word@, prefix.deep_view()),
{
    let n: usize = to_chars(word).len();
    if n >= 2 && n <= 40 {
        let token = match prefix {
            Some(p) => {
                let mut t = p.to_owned();
                t.append(":");
                t.append(word);
                t
            },
            None => word.to_owned(),
        };
        if !list_contains(set, token.as_str()) {
            put(set, token);
        }
    }
}

/// Adds the words of a text to the tokens: runs of token characters, in small
/// letters, of 2 to 40 characters.
pub fn collect_words(text: &str, prefix: Option<&str>, set: &mut Vec<String>)
    ensures
        final(set).deep_view() == words_from(
            text@,
            0,
            Seq::empty(),
            prefix.deep_view(),
            old(set).deep_view(),
        ),
{
    let ghost start = set.deep_view();
    let v = to_chars(text);
    let mut word = String::new();
    let mut i: usize = 0;
    while i < v.len()
        invariant
            v@ == text@,
            i <= v@.len(),
            words_from(text@, 0, Seq::empty(), prefix.deep_view(), start) == words_from(
                text@,
                i as int,
                word@,
                prefix.deep_view(),
                set.deep_view(),
            ),
        decreases v@.len() - i,
    {
        if is_token_char(v[i]) {
            word.append(lower_of(v[i]).as_str());
        } else {
            add_word(set, word.as_str(), prefix);
            word = String::new();
        }
        i = i + 1;
    }
    add_word(set, word.as_str(), prefix);
}

/// The tokens of the first `k` headers.
pub open spec fn header_tokens_upto(hs: Seq<(Seq<char>, Seq<char>)>, k: int) -> Seq<Seq<char>>
    decreases k,
{
    if k <= 0 {
        Seq::empty()
    } else {
        match header_mark(hs[k - 1].0) {
            Some(mark) => words_from(
                hs[k - 1].1,
                0,
                Seq::empty(),
                Some(mark),
                header_tokens_upto(hs, k - 1),
            ),
            None => header_tokens_upto(hs, k - 1),
        }
    }
}

/// The tokens of a message.
pub open spec fn tokens_of(raw: Seq<char>) -> Seq<Seq<char>> {
    let (head, body) = head_and_body(raw);
    let ls = lines_of(head);
    let hs = headers_upto(ls, ls.len() as int);
    words_from(
        visible_upto(body, body.len() as int).0,
        0,
        Seq::empty(),
        None,
        header_tokens_upto(hs, hs.len() as int),
    )
}

/// The tokens of a message, each once: the words of the headers that tell
/// something, with the mark of the header, and the words of the body.
pub fn tokenize(msg: &RawMessage) -> (r: Vec<String>)
    ensures
        r.deep_view() == tokens_of(msg@),
{
    let (head, body) = split_headers_body(msg.raw.as_str());
    let hs = parse_headers(head.as_str());
    let mut set: Vec<String> = no_items();
    let mut i: usize = 0;
    while i < hs.len()
        invariant
            i <= hs@.len(),
            set.deep_view() == header_tokens_upto(hs.deep_view(), i as int),
        decreases hs@.len() - i,
    {
        let h = at(hs.as_slice(), i);
        match header_prefix(h.0.as_str()) {
            Some(mark) => {
                collect_words(h.1.as_str(), Some(mark), &mut set);
            },
            None => {},
        }
        i = i + 1;
    }
    let visible = strip_html(body.as_str());
    collect_words(visible.as_str(), None, &mut set);
    set
}

proof fn lemma_words_distinct(
    s: Seq<char>,
    i: int,
    word: Seq<char>,
    mark: Option<Seq<char>>,
    acc: Seq<Seq<char>>,
)
    requires
        acc.no_duplicates(),
    ensures
        words_from(s, i, word, mark, acc).no_duplicates(),
    decreases s.len() - i,
{
    let next = with_word(acc, word, mark);
    assert(next.no_duplicates());
    if i >= s.len() {
    } else if token_char(s[i]) {
        lemma_words_distinct(s, i + 1, word + char_lowercase(s[i]), mark, acc);
    } else {
        lemma_words_distinct(s, i + 1, Seq::empty(), mark, next);
    }
}

proof fn lemma_header_tokens_distinct(hs: Seq<(Seq<char>, Seq<char>)>, k: int)
    ensures
        header_tokens_upto(hs, k).no_duplicates(),
    decreases k,
{
    if k > 0 {
        lemma_header_tokens_distinct(hs, k - 1);
        match header_mark(hs[k - 1].0) {
            Some(mark) => {
                lemma_words_distinct(
                    hs[k - 1].1,
                    0,
                    Seq::empty(),
                    Some(mark),
                    header_tokens_upto(hs, k - 1),
                );
            },
            None => {},
        }
    }
}

/// No token of a message occurs twice.
pub proof fn law_tokens_distinct(raw: Seq<char>)
    ensures
        tokens_of(raw).no_duplicates(),
{
    let (head, body) = head_and_body(raw);
    let ls = lines_of(head);
    let hs = headers_upto(ls, ls.len() as int);
    lemma_header_tokens_distinct(hs, hs.len() as int);
    lemma_words_distinct(
        visible_upto(body, body.len() as int).0,
        0,
        Seq::empty(),
        None,
        header_tokens_upto(hs, hs.len() as int),
    );
}

// ---------------------------------------------------------------------------
// The model
// ---------------------------------------------------------------------------

/// How many messages of either kind held a token.
#[derive(Debug, Clone, Copy, PartialEq, Eq, Structural)]
pub struct TokenCounts {
    pub spam: u32,
    pub ham: u32,
}

impl DeepView for TokenCounts {
    type V = TokenCounts;

    open spec fn deep_view(&self) -> TokenCounts {
        *self
    }
}

impl Dup for TokenCounts {
    fn dup(&self) -> (r: TokenCounts) {
        *self
    }
}

/// What the classifier has learnt.
#[derive(Debug)]
pub struct SpamModel {
    pub tokens: StrMap<TokenCounts>,
    pub spam_messages: u32,
    pub ham_messages: u32,
}

/// The contents of a `SpamModel`.
pub struct SpamModelV {
    pub tokens: Seq<(Seq<char>, TokenCounts)>,
    pub spam_messages: u32,
    pub ham_messages: u32,
}

impl DeepView for SpamModel {
    type V = SpamModelV;

    open spec fn deep_view(&self) -> SpamModelV {
        SpamModelV {
            tokens: self.tokens.deep_view(),
            spam_messages: self.spam_messages,
            ham_messages: self.ham_messages,
        }
    }
}

/// No token was held by more messages than the model has learnt from.
pub open spec fn model_ok(m: SpamModelV) -> bool {
    forall|k: Seq<char>|
        #![trigger lookup(m.tokens, k)]
        match lookup(m.tokens, k) {
            Some(c) => c.spam <= m.spam_messages && c.ham <= m.ham_messages,
            None => true,
        }
}

/// The counts of a token.
pub open spec fn counts_of(tokens: Seq<(Seq<char>, TokenCounts)>, t: Seq<char>) -> TokenCounts {
    match lookup(tokens, t) {
        Some(c) => c,
        None => TokenCounts { spam: 0, ham: 0 },
    }
}

/// The counts with one more message of a kind.
pub open spec fn counted(c: TokenCounts, label: Label) -> TokenCounts {
    match label {
        Label::Spam => TokenCounts { spam: (c.spam + 1) as u32, ham: c.ham },
        Label::Ham => TokenCounts { spam: c.spam, ham: (c.ham + 1) as u32 },
    }
}

/// The token counts once the first `k` tokens of a message are counted.
pub open spec fn counted_upto(
    tokens: Seq<(Seq<char>, TokenCounts)>,
    ts: Seq<Seq<char>>,
    label: Label,
    k: int,
) -> Seq<(Seq<char>, TokenCounts)>
    decreases k,
{
    if k <= 0 {
        tokens
    } else {
        let before = counted_upto(tokens, ts, label, k - 1);
        with_entry(before, ts[k - 1], counted(counts_of(before, ts[k - 1]), label))
    }
}

/// The model once it has learnt from a message.
pub open spec fn trained(m: SpamModelV, raw: Seq<char>, label: Label) -> SpamModelV {
    let ts = tokens_of(raw);
    SpamModelV {
        tokens: counted_upto(m.tokens, ts, label, ts.len() as int),
        spam_messages: if label == Label::Spam {
            (m.spam_messages + 1) as u32
        } else {
            m.spam_messages
        },
        ham_messages: if label == Label::Ham {
            (m.ham_messages + 1) as u32
        } else {
            m.ham_messages
        },
    }
}

/// The number of messages of a kind.
pub open spec fn messages_of(m: SpamModelV, label: Label) -> u32 {
    match label {
        Label::Spam => m.spam_messages,
        Label::Ham => m.ham_messages,
    }
}

/// Counting the tokens of a message raises the count of each of them by one and
/// leaves every other count alone.
pub proof fn lemma_counted_upto(
    tokens: Seq<(Seq<char>, TokenCounts)>,
    ts: Seq<Seq<char>>,
    label: Label,
    k: int,
    t: Seq<char>,
)
    requires
        0 <= k <= ts.len(),
        ts.no_duplicates(),
    ensures
        lookup(counted_upto(tokens, ts, label, k), t) == (if ts.subrange(0, k).contains(t) {
            Some(counted(counts_of(tokens, t), label))
        } else {
            lookup(tokens, t)
        }),
    decreases k,
{
    if k > 0 {
        let before = counted_upto(tokens, ts, label, k - 1);
        let last = ts[k - 1];
        lemma_counted_upto(tokens, ts, label, k - 1, t);
        lemma_counted_upto(tokens, ts, label, k - 1, last);
        lemma_lookup_with_entry(before, last, counted(counts_of(before, last), label), t);
        let init = ts.subrange(0, k - 1);
        let all = ts.subrange(0, k);
        assert(all =~= init.push(last));
        if init.contains(last) {
            let j = choose|j: int| 0 <= j < init.len() && init[j] == last;
            assert(ts[j] == ts[k - 1]);
        }
        if t == last {
            assert(all[k - 1] == t);
        } else {
            if all.contains(t) {
                let j = choose|j: int| 0 <= j < all.len() && all[j] == t;
                assert(init[j] == t);
            }
            if init.contains(t) {
                let j = choose|j: int| 0 <= j < init.len() && init[j] == t;
                assert(all[j] == t);
            }
        }
    } else {
        assert(ts.subrange(0, 0).len() == 0);
    }
}

/// A message raises the counts of its own tokens by one, and no others.
pub proof fn law_training_counts_each_token_once(
    m: SpamModelV,
    raw: Seq<char>,
    label: Label,
    t: Seq<char>,
)
    ensures
        lookup(trained(m, raw, label).tokens, t) == (if tokens_of(raw).contains(t) {
            Some(counted(counts_of(m.tokens, t), label))
        } else {
            lookup(m.tokens, t)
        }),
{
    let ts = tokens_of(raw);
    law_tokens_distinct(raw);
    lemma_counted_upto(m.tokens, ts, label, ts.len() as int, t);
    assert(ts.subrange(0, ts.len() as int) =~= ts);
}

/// The messages of a kind that held a token.
pub open spec fn count_in(c: TokenCounts, label: Label) -> u32 {
    match label {
        Label::Spam => c.spam,
        Label::Ham => c.ham,
    }
}

/// Whether a model can count a message: neither the number of messages of its kind
/// nor the count of any of its tokens is at its bound.
pub open spec fn can_learn(m: SpamModelV, raw: Seq<char>, label: Label) -> bool {
    &&& messages_of(m, label) < u32::MAX
    &&& forall|t: Seq<char>| #[trigger]
        tokens_of(raw).contains(t) ==> count_in(counts_of(m.tokens, t), label) < u32::MAX
}

/// A model whose token counts are within the number of messages can learn from any
/// message as long as the messages can be counted.
pub proof fn law_model_in_order_can_learn(m: SpamModelV, raw: Seq<char>, label: Label)
    requires
        model_ok(m),
        messages_of(m, label) < u32::MAX,
    ensures
        can_learn(m, raw, label),
{
    assert forall|t: Seq<char>| #[trigger] tokens_of(raw).contains(t) implies count_in(
        counts_of(m.tokens, t),
        label,
    ) < u32::MAX by {
        let entry = lookup(m.tokens, t);
    }
}

/// The model once it has learnt from the first `k` messages of a list.
pub open spec fn trained_upto(m: SpamModelV, list: Seq<(Seq<char>, Label)>, k: int) -> SpamModelV
    decreases k,
{
    if k <= 0 {
        m
    } else {
        trained(trained_upto(m, list, k - 1), list[k - 1].0, list[k - 1].1)
    }
}

/// How many of the first `k` messages of a list are of a kind.
pub open spec fn kind_upto(list: Seq<(Seq<char>, Label)>, label: Label, k: int) -> nat
    decreases k,
{
    if k <= 0 {
        0
    } else if list[k - 1].1 == label {
        kind_upto(list, label, k - 1) + 1
    } else {
        kind_upto(list, label, k - 1)
    }
}

/// How many of the first `k` messages of a list are of a kind and hold a token.
pub open spec fn holding_upto(
    list: Seq<(Seq<char>, Label)>,
    t: Seq<char>,
    label: Label,
    k: int,
) -> nat
    decreases k,
{
    if k <= 0 {
        0
    } else if list[k - 1].1 == label && tokens_of(list[k - 1].0).contains(t) {
        holding_upto(list, t, label, k - 1) + 1
    } else {
        holding_upto(list, t, label, k - 1)
    }
}

/// After any list of messages the model has counted each message once, and each token
/// once for each message of the kind that held it.
pub proof fn law_trainings_add_up(
    m: SpamModelV,
    list: Seq<(Seq<char>, Label)>,
    k: int,
    t: Seq<char>,
    label: Label,
)
    requires
        model_ok(m),
        0 <= k <= list.len(),
        m.spam_messages + kind_upto(list, Label::Spam, k) <= u32::MAX,
        m.ham_messages + kind_upto(list, Label::Ham, k) <= u32::MAX,
    ensures
        ({
            let n = trained_upto(m, list, k);
            &&& model_ok(n)
            &&& messages_of(n, label) == messages_of(m, label) + kind_upto(list, label, k)
            &&& count_in(counts_of(n.tokens, t), label) == count_in(counts_of(m.tokens, t), label)
                + holding_upto(list, t, label, k)
        }),
    decreases k,
{
    if k > 0 {
        let before = trained_upto(m, list, k - 1);
        let (raw, kind) = list[k - 1];
        law_trainings_add_up(m, list, k - 1, t, label);
        law_trainings_add_up(m, list, k - 1, t, kind);
        law_training_keeps_model_ok(before, raw, kind);
        law_training_counts_each_token_once(before, raw, kind, t);
        let entry = lookup(before.tokens, t);
    }
}

/// Learning keeps every token count within the number of messages.
pub proof fn law_training_keeps_model_ok(m: SpamModelV, raw: Seq<char>, label: Label)
    requires
        model_ok(m),
        messages_of(m, label) < u32::MAX,
    ensures
        model_ok(trained(m, raw, label)),
{
    let n = trained(m, raw, label);
    assert forall|k: Seq<char>| #![trigger lookup(n.tokens, k)] match lookup(n.tokens, k) {
        Some(c) => c.spam <= n.spam_messages && c.ham <= n.ham_messages,
        None => true,
    } by {
        law_training_counts_each_token_once(m, raw, label, k);
        let old_entry = lookup(m.tokens, k);
    }
}

impl SpamModel {
    /// A model that has learnt nothing.
    pub fn empty() -> (r: SpamModel)
        ensures
            r.deep_view() == (SpamModelV {
                tokens: Seq::empty(),
                spam_messages: 0,
                ham_messages: 0,
            }),
            model_ok(r.deep_view()),
    {
        SpamModel { tokens: StrMap::new(), spam_messages: 0, ham_messages: 0 }
    }

    /// The number of unwanted messages that the model has learnt from.
    pub fn spam_messages(&self) -> (r: u32)
        ensures
            r == self.deep_view().spam_messages,
    {
        self.spam_messages
    }

    /// The number of wanted messages that the model has learnt from.
    pub fn ham_messages(&self) -> (r: u32)
        ensures
            r == self.deep_view().ham_messages,
    {
        self.ham_messages
    }

    /// Whether the model has learnt from at least `min_per_class` messages of
    /// either kind.
    pub fn is_trained(&self, min_per_class: u32) -> (r: bool)
        ensures
            r == (self.spam_messages >= min_per_class && self.ham_messages >= min_per_class),
    {
        self.spam_messages >= min_per_class && self.ham_messages >= min_per_class
    }

    /// Whether the model can count a message.
    pub fn is_able_to_learn(&self, msg: &RawMessage, label: Label) -> (r: bool)
        ensures
            r == can_learn(self.deep_view(), msg@, label),
    {
        let messages: u32 = match label {
            Label::Spam => self.spam_messages,
            Label::Ham => self.ham_messages,
        };
        if messages == u32::MAX {
            return false;
        }
        let ts = tokenize(msg);
        let ghost tv = tokens_of(msg@);
        let mut i: usize = 0;
        while i < ts.len()
            invariant
                ts.deep_view() == tv,
                tv == tokens_of(msg@),
                i <= ts@.len(),
                forall|j: int|
                    0 <= j < i ==> count_in(
                        counts_of(self.deep_view().tokens, #[trigger] tv[j]),
                        label,
                    ) < u32::MAX,
            decreases ts@.len() - i,
        {
            let t = at(ts.as_slice(), i);
            let n: u32 = match self.tokens.get(t.as_str()) {
                Some(c) => match label {
                    Label::Spam => c.spam,
                    Label::Ham => c.ham,
                },
                None => 0,
            };
            if n == u32::MAX {
                assert(tv.contains(tv[i as int]));
                return false;
            }
            i = i + 1;
        }
        true
    }

    /// Learns from a message if the model can count it, and says whether it could.
    pub fn learn(&mut self, msg: &RawMessage, label: Label) -> (r: bool)
        ensures
            r == can_learn(old(self).deep_view(), msg@, label),
            final(self).deep_view() == (if r {
                trained(old(self).deep_view(), msg@, label)
            } else {
                old(self).deep_view()
            }),
    {
        if self.is_able_to_learn(msg, label) {
            self.train(msg, label);
            true
        } else {
            false
        }
    }

    /// Learns from a message.
    pub fn train(&mut self, msg: &RawMessage, label: Label)
        requires
            can_learn(old(self).deep_view(), msg@, label),
        ensures
            final(self).deep_view() == trained(old(self).deep_view(), msg@, label),
    {
        let ghost start = self.deep_view();
        let ts = tokenize(msg);
        let ghost tv = tokens_of(msg@);
        proof {
            law_tokens_distinct(msg@);
        }
        let mut i: usize = 0;
        while i < ts.len()
            invariant
                ts.deep_view() == tv,
                tv.no_duplicates(),
                i <= ts@.len(),
                tv == tokens_of(msg@),
                can_learn(start, msg@, label),
                self.spam_messages == start.spam_messages,
                self.ham_messages == start.ham_messages,
                self.tokens.deep_view() == counted_upto(start.tokens, tv, label, i as int),
            decreases ts@.len() - i,
        {
            let t = at(ts.as_slice(), i);
            proof {
                lemma_counted_upto(start.tokens, tv, label, i as int, t@);
                let init = tv.subrange(0, i as int);
                if init.contains(t@) {
                    let j = choose|j: int| 0 <= j < init.len() && init[j] == t@;
                    assert(tv[j] == tv[i as int]);
                }
                assert(tv.contains(tv[i as int]));
            }
            let c = match self.tokens.get(t.as_str()) {
                Some(c) => *c,
                None => TokenCounts { spam: 0, ham: 0 },
            };
            let n = match label {
                Label::Spam => TokenCounts { spam: c.spam + 1, ham: c.ham },
                Label::Ham => TokenCounts { spam: c.spam, ham: c.ham + 1 },
            };
            self.tokens.insert(t.clone(), n);
            i = i + 1;
        }
        match label {
            Label::Spam => {
                self.spam_messages = self.spam_messages + 1;
            },
            Label::Ham => {
                self.ham_messages = self.ham_messages + 1;
            },
        }
    }

    /// The counts of those tokens of a message that some message of the model
    /// held, in the order of the tokens.
    pub fn evidence(&self, msg: &RawMessage) -> (r: Vec<TokenCounts>)
        ensures
            r@ == evidence_upto(
                self.deep_view().tokens,
                tokens_of(msg@),
                tokens_of(msg@).len() as int,
            ),
    {
        let ts = tokenize(msg);
        let mut out: Vec<TokenCounts> = Vec::new();
        let mut i: usize = 0;
        while i < ts.len()
            invariant
                ts.deep_view() == tokens_of(msg@),
                i <= ts@.len(),
                out@ == evidence_upto(self.deep_view().tokens, tokens_of(msg@), i as int),
            decreases ts@.len() - i,
        {
            match self.tokens.get(at(ts.as_slice(), i).as_str()) {
                Some(c) => {
                    if c.spam != 0 || c.ham != 0 {
                        out.push(*c);
                    }
                },
                None => {},
            }
            i = i + 1;
        }
        out
    }

    /// The verdict on a message whose score is known to reach the threshold for
    /// unwanted mail or not, and to stay within that for wanted mail or not. A
    /// model that has learnt too little is never sure.
    pub fn verdict(&self, reaches_spam: bool, within_ham: bool, min_per_class: u32) -> (r: Verdict)
        ensures
            r == (if self.spam_messages < min_per_class || self.ham_messages < min_per_class {
                Verdict::Unsure
            } else if reaches_spam {
                Verdict::Spam
            } else if within_ham {
                Verdict::Ham
            } else {
                Verdict::Unsure
            }),
    {
        if !self.is_trained(min_per_class) {
            Verdict::Unsure
        } else if reaches_spam {
            Verdict::Spam
        } else if within_ham {
            Verdict::Ham
        } else {
            Verdict::Unsure
        }
    }
}

/// The counts of those of the first `k` tokens that some message held.
pub open spec fn evidence_upto(
    tokens: Seq<(Seq<char>, TokenCounts)>,
    ts: Seq<Seq<char>>,
    k: int,
) -> Seq<TokenCounts>
    decreases k,
{
    if k <= 0 {
        Seq::empty()
    } else {
        match lookup(tokens, ts[k - 1]) {
            Some(c) => if c.spam != 0 || c.ham != 0 {
                evidence_upto(tokens, ts, k - 1).push(c)
            } else {
                evidence_upto(tokens, ts, k - 1)
            },
            None => evidence_upto(tokens, ts, k - 1),
        }
    }
}

/// Where the model is kept.
pub open spec fn model_file(data: Option<Seq<char>>, home: Option<Seq<char>>) -> Seq<char> {
    let base = match (data, home) {
        (Some(d), _) => d,
        (None, Some(h)) => path_join(path_join(h, ".local"@), "share"@),
        (None, None) => "."@,
    };
    path_join(path_join(base, "tmc"@), "spam-model.json"@)
}

/// Where the model is kept: below the data directory, which survives when caches
/// are cleared.
pub fn model_path(xdg_data_home: Option<String>, home: Option<String>) -> (r: String)
    ensures
        r@ == model_file(xdg_data_home.deep_view(), home.deep_view()),
{
    let base = match xdg_data_home {
        Some(d) => d,
        None => match home {
            Some(h) => join_path(join_path(h.as_str(), ".local").as_str(), "share"),
            None => ".".to_owned(),
        },
    };
    join_path(join_path(base.as_str(), "tmc").as_str(), "spam-model.json")
}

} // verus!
