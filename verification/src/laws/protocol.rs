//! What goes over the wire: the requests to the mail server, where redirections lead, and
//! the requests to the fetch service with its replies.

use vstd::prelude::*;
use vstd::utf8::{decode_utf8, encode_utf8, valid_utf8};

use crate::jmap::client::{
    auth_text, base64_char, base64_of, blob_url, change_request, changes_upto, conditions_request,
    discovered, fetch_step, keyword_change, list_properties, mailbox_change, newest_first,
    password_of, query_conditions, redirected, reply_properties, set_request, uncollapsed_request,
    without_line_ends, CommandOutputV, FetchV, HttpReplyV, JmapClientV,
};
use crate::jmap::types::JmapSessionV;
use crate::json::{texts, JsonV};
use crate::td_fetch::{
    has_control, head_line, head_upto, key_and_value, request_head, with_body, ErrorV, HeadV,
    ResponseV,
};
use crate::text::{
    begins, decimal, find, find_from, lemma_find_from, number_upto, occurs_at, replaced,
    replaced_from,
};

verus! {

// ---------------------------------------------------------------------------
// Requests to the mail server
// ---------------------------------------------------------------------------

/// A request of one method call with arguments.
pub open spec fn one_call(method: Seq<char>, args: Seq<(Seq<char>, JsonV)>) -> JsonV {
    JsonV::Object(
        seq![
            (
                "using"@,
                JsonV::List(
                    seq![
                        JsonV::Text("urn:ietf:params:jmap:core"@),
                        JsonV::Text("urn:ietf:params:jmap:mail"@),
                    ],
                ),
            ),
            (
                "methodCalls"@,
                JsonV::List(
                    seq![
                        JsonV::List(
                            seq![JsonV::Text(method), JsonV::Object(args), JsonV::Text("0"@)],
                        ),
                    ],
                ),
            ),
        ],
    )
}

/// An object with one entry.
pub open spec fn entry(key: Seq<char>, value: JsonV) -> JsonV {
    JsonV::Object(seq![(key, value)])
}

/// The order by the time of receipt, the newest first.
pub open spec fn latest_first() -> JsonV {
    JsonV::List(
        seq![
            JsonV::Object(
                seq![
                    ("property"@, JsonV::Text("receivedAt"@)),
                    ("isAscending"@, JsonV::Bool(false)),
                ],
            ),
        ],
    )
}

proof fn lemma_call(method: Seq<char>, args: Seq<(Seq<char>, JsonV)>)
    ensures
        crate::jmap::client::method_call(method, JsonV::Object(args)) == one_call(method, args),
{
    let core = "urn:ietf:params:jmap:core"@;
    let mail = "urn:ietf:params:jmap:mail"@;
    let two = Seq::<Seq<char>>::empty().push(core).push(mail);
    assert(two.map_values(|s: Seq<char>| JsonV::Text(s)) =~= seq![
        JsonV::Text(core),
        JsonV::Text(mail),
    ]);
    let call = Seq::<JsonV>::empty().push(JsonV::Text(method)).push(JsonV::Object(args)).push(
        JsonV::Text("0"@),
    );
    assert(call =~= seq![JsonV::Text(method), JsonV::Object(args), JsonV::Text("0"@)]);
    let calls = Seq::<JsonV>::empty().push(JsonV::List(call));
    assert(calls =~= seq![JsonV::List(call)]);
    let a = Seq::<(Seq<char>, JsonV)>::empty().push(("using"@, texts(two))).push(
        ("methodCalls"@, JsonV::List(calls)),
    );
    assert(a =~= seq![("using"@, texts(two)), ("methodCalls"@, JsonV::List(calls))]);
}

proof fn lemma_entry(key: Seq<char>, value: JsonV)
    ensures
        crate::jmap::client::single(key, value) == entry(key, value),
{
    assert(Seq::<(Seq<char>, JsonV)>::empty().push((key, value)) =~= seq![(key, value)]);
}

/// A change of a message is an update of that message in the user's account: a mark is
/// set to true or taken away, and a move makes the one mailbox all that the message is
/// in. Destroyed messages are named by their ids.
pub proof fn law_change_requests_name_the_message(
    c: JmapClientV,
    id: Seq<char>,
    to: Seq<char>,
    word: Seq<char>,
    on: bool,
    ids: Seq<Seq<char>>,
)
    ensures
        ({
            let account = ("accountId"@, JsonV::Text(c.account_id));
            let mark = if on {
                JsonV::Bool(true)
            } else {
                JsonV::Null
            };
            &&& change_request(c, id, keyword_change(word, on)) == one_call(
                "Email/set"@,
                seq![account, ("update"@, entry(id, entry(word, mark)))],
            )
            &&& change_request(c, id, mailbox_change(to)) == one_call(
                "Email/set"@,
                seq![
                    account,
                    ("update"@, entry(id, entry("mailboxIds"@, entry(to, JsonV::Bool(true))))),
                ],
            )
            &&& set_request(c, "Email/set"@, "destroy"@, texts(ids)) == one_call(
                "Email/set"@,
                seq![
                    account,
                    ("destroy"@, JsonV::List(Seq::new(ids.len(), |i: int| JsonV::Text(ids[i])))),
                ],
            )
        }),
{
    let account = ("accountId"@, JsonV::Text(c.account_id));
    let none = Seq::<(Seq<char>, JsonV)>::empty();
    let mark = if on {
        JsonV::Bool(true)
    } else {
        JsonV::Null
    };
    lemma_entry(word, mark);
    lemma_entry(id, keyword_change(word, on));
    lemma_entry(to, JsonV::Bool(true));
    lemma_entry("mailboxIds"@, entry(to, JsonV::Bool(true)));
    lemma_entry(id, mailbox_change(to));
    let list = ids.map_values(|s: Seq<char>| JsonV::Text(s));
    assert(list =~= Seq::new(ids.len(), |i: int| JsonV::Text(ids[i])));
    let a = none.push(account).push(("update"@, entry(id, entry(word, mark))));
    assert(a =~= seq![account, ("update"@, entry(id, entry(word, mark)))]);
    lemma_call("Email/set"@, a);
    let m = entry(id, entry("mailboxIds"@, entry(to, JsonV::Bool(true))));
    let b = none.push(account).push(("update"@, m));
    assert(b =~= seq![account, ("update"@, m)]);
    lemma_call("Email/set"@, b);
    let d = none.push(account).push(("destroy"@, JsonV::List(list)));
    assert(d =~= seq![account, ("destroy"@, JsonV::List(list))]);
    lemma_call("Email/set"@, d);
}

/// A query asks for a page of the messages that are in the mailbox and meet each
/// condition that is given, the newest first.
pub proof fn law_query_asks_for_the_newest_of_the_mailbox(
    c: JmapClientV,
    mailbox: Seq<char>,
    limit: u32,
    position: u32,
    text: Option<Seq<char>>,
    after: Option<Seq<char>>,
    before: Option<Seq<char>>,
)
    ensures
        ({
            let here = entry("inMailbox"@, JsonV::Text(mailbox));
            let all = query_conditions(mailbox, text, after, before);
            &&& conditions_request(c, all, limit, position) == one_call(
                "Email/query"@,
                seq![
                    ("accountId"@, JsonV::Text(c.account_id)),
                    (
                        "filter"@,
                        JsonV::Object(
                            seq![
                                ("operator"@, JsonV::Text("AND"@)),
                                ("conditions"@, JsonV::List(all)),
                            ],
                        ),
                    ),
                    ("sort"@, latest_first()),
                    ("limit"@, JsonV::UInt(limit as u64)),
                    ("position"@, JsonV::UInt(position as u64)),
                ],
            )
            &&& all[0] == here
            &&& text is Some ==> all.contains(entry("text"@, JsonV::Text(text->0)))
            &&& after is Some ==> all.contains(entry("after"@, JsonV::Text(after->0)))
            &&& before is Some ==> all.contains(entry("before"@, JsonV::Text(before->0)))
            &&& all.len() == 1 + (if text is Some {
                1int
            } else {
                0
            }) + (if after is Some {
                1int
            } else {
                0
            }) + (if before is Some {
                1int
            } else {
                0
            })
            &&& uncollapsed_request(c, mailbox, limit, position) == one_call(
                "Email/query"@,
                seq![
                    ("accountId"@, JsonV::Text(c.account_id)),
                    ("filter"@, here),
                    ("sort"@, latest_first()),
                    ("collapseThreads"@, JsonV::Bool(false)),
                    ("limit"@, JsonV::UInt(limit as u64)),
                    ("position"@, JsonV::UInt(position as u64)),
                ],
            )
        }),
{
    let none = Seq::<(Seq<char>, JsonV)>::empty();
    lemma_entry("inMailbox"@, JsonV::Text(mailbox));
    lemma_newest();
    let all = query_conditions(mailbox, text, after, before);
    let and = none.push(("operator"@, JsonV::Text("AND"@))).push(("conditions"@, JsonV::List(all)));
    assert(and =~= seq![("operator"@, JsonV::Text("AND"@)), ("conditions"@, JsonV::List(all))]);
    let a = none.push(("accountId"@, JsonV::Text(c.account_id))).push(
        ("filter"@, JsonV::Object(and)),
    ).push(("sort"@, newest_first())).push(("limit"@, JsonV::UInt(limit as u64))).push(
        ("position"@, JsonV::UInt(position as u64)),
    );
    assert(a =~= seq![
        ("accountId"@, JsonV::Text(c.account_id)),
        ("filter"@, JsonV::Object(and)),
        ("sort"@, newest_first()),
        ("limit"@, JsonV::UInt(limit as u64)),
        ("position"@, JsonV::UInt(position as u64)),
    ]);
    lemma_call("Email/query"@, a);
    let here = entry("inMailbox"@, JsonV::Text(mailbox));
    let b = none.push(("accountId"@, JsonV::Text(c.account_id))).push(("filter"@, here)).push(
        ("sort"@, newest_first()),
    ).push(("collapseThreads"@, JsonV::Bool(false))).push(
        ("limit"@, JsonV::UInt(limit as u64)),
    ).push(("position"@, JsonV::UInt(position as u64)));
    assert(b =~= seq![
        ("accountId"@, JsonV::Text(c.account_id)),
        ("filter"@, here),
        ("sort"@, newest_first()),
        ("collapseThreads"@, JsonV::Bool(false)),
        ("limit"@, JsonV::UInt(limit as u64)),
        ("position"@, JsonV::UInt(position as u64)),
    ]);
    lemma_call("Email/query"@, b);
    let one = Seq::<JsonV>::empty().push(here);
    let n = if text is Some {
        2int
    } else {
        1
    };
    let k = if after is Some {
        n + 1
    } else {
        n
    };
    if text is Some {
        lemma_entry("text"@, JsonV::Text(text->0));
        assert(all[1] == entry("text"@, JsonV::Text(text->0)));
    }
    if after is Some {
        lemma_entry("after"@, JsonV::Text(after->0));
        assert(all[n] == entry("after"@, JsonV::Text(after->0)));
    }
    if before is Some {
        lemma_entry("before"@, JsonV::Text(before->0));
        assert(all[k] == entry("before"@, JsonV::Text(before->0)));
    }
}

proof fn lemma_newest()
    ensures
        newest_first() == latest_first(),
{
    let a = Seq::<(Seq<char>, JsonV)>::empty().push(("property"@, JsonV::Text("receivedAt"@))).push(
        ("isAscending"@, JsonV::Bool(false)),
    );
    assert(a =~= seq![
        ("property"@, JsonV::Text("receivedAt"@)),
        ("isAscending"@, JsonV::Bool(false)),
    ]);
    assert(Seq::<JsonV>::empty().push(JsonV::Object(a)) =~= seq![JsonV::Object(a)]);
}

/// Messages are fetched with everything that is shown of them and that rules and drafts
/// are made from.
pub proof fn law_messages_are_fetched_whole()
    ensures
        ({
            let l = list_properties();
            &&& l.contains("id"@) && l.contains("from"@) && l.contains("to"@) && l.contains("cc"@)
            &&& l.contains("subject"@) && l.contains("receivedAt"@) && l.contains("preview"@)
            &&& l.contains("textBody"@) && l.contains("bodyValues"@) && l.contains("keywords"@)
            &&& l.contains("mailboxIds"@) && l.contains("attachments"@)
        }),
        ({
            let r = reply_properties();
            &&& r.contains("id"@) && r.contains("from"@) && r.contains("to"@) && r.contains("cc"@)
            &&& r.contains("replyTo"@) && r.contains("subject"@) && r.contains("receivedAt"@)
            &&& r.contains("sentAt"@) && r.contains("textBody"@) && r.contains("bodyValues"@)
            &&& r.contains("messageId"@) && r.contains("references"@)
        }),
{
    let l = list_properties();
    assert(l[0] == "id"@ && l[1] == "from"@ && l[2] == "to"@ && l[3] == "cc"@);
    assert(l[4] == "subject"@ && l[5] == "receivedAt"@ && l[6] == "preview"@);
    assert(l[7] == "textBody"@ && l[8] == "bodyValues"@ && l[9] == "keywords"@);
    assert(l[10] == "mailboxIds"@ && l[11] == "attachments"@);
    let r = reply_properties();
    assert(r[0] == "id"@ && r[1] == "from"@ && r[2] == "to"@ && r[3] == "cc"@);
    assert(r[4] == "replyTo"@ && r[5] == "subject"@ && r[6] == "receivedAt"@);
    assert(r[7] == "sentAt"@ && r[8] == "textBody"@ && r[9] == "bodyValues"@);
    assert(r[10] == "messageId"@ && r[11] == "references"@);
}

// ---------------------------------------------------------------------------
// Sessions and redirections
// ---------------------------------------------------------------------------

/// A session is opened at the account that the server names for mail, or else at its only
/// account, with the server's own addresses; where there is neither, it is refused.
pub proof fn law_session_opens_the_mail_account(
    s: JmapSessionV,
    user: Seq<char>,
    password: Seq<char>,
    response: Seq<char>,
)
    ensures
        ({
            let named = crate::data::lookup(s.primary_accounts, "urn:ietf:params:jmap:mail"@);
            let c = discovered(s, user, password, response);
            let at = |id: Seq<char>|
                c == Ok::<JmapClientV, crate::jmap::client::JmapErrorV>(
                    JmapClientV {
                        username: user,
                        password,
                        api_url: s.api_url,
                        account_id: id,
                        download_url: s.download_url,
                    },
                );
            &&& named is Some ==> at(named->0)
            &&& named is None && s.accounts.len() == 1 ==> at(s.accounts[0].0)
            &&& named is None && s.accounts.len() != 1 ==> c is Err
        }),
{
}

/// A redirection to a full address leads there; one to a path leads to that path on the
/// host it came from.
pub proof fn law_redirections_stay_on_the_host(host: Seq<char>, path: Seq<char>, to: Seq<char>)
    requires
        !host.contains('/'),
        to.len() > 0 && to[0] == '/',
    ensures
        redirected("https://"@ + host + seq!['/'] + path, to) == "https://"@ + host + to,
        redirected(host, "https://"@ + path) == "https://"@ + path,
{
    reveal_strlit("https://");
    reveal_strlit("http://");
    reveal_strlit("://");
    reveal_strlit("/");
    let scheme = "https://"@;
    let base = scheme + host + seq!['/'] + path;
    let sep = "://"@;
    let slash = "/"@;
    assert(scheme.len() == 8 && "http://"@.len() == 7 && sep.len() == 3 && slash.len() == 1);
    assert(scheme[0] == 'h' && scheme[5] == ':' && scheme[6] == '/' && scheme[7] == '/');
    assert(scheme[1] == 't' && scheme[2] == 't' && scheme[3] == 'p' && scheme[4] == 's');
    assert(slash =~= seq!['/']);
    assert(!begins(to, "http://"@) && !begins(to, scheme)) by {
        if begins(to, scheme) {
            assert(to.subrange(0, 8)[0] == to[0]);
        }
        if begins(to, "http://"@) {
            assert(to.subrange(0, 7)[0] == to[0]);
        }
    }
    assert(begins(to, slash)) by {
        assert(to.subrange(0, 1) =~= slash);
    }
    lemma_find_from(base, sep, 0);
    assert(base.subrange(5, 8) =~= sep);
    assert(occurs_at(base, sep, 5));
    let i = find(base, sep)->0;
    assert(i == 5) by {
        if i < 5 {
            assert(base.subrange(i, i + 3)[0] == base[i]);
            assert(base[i] == scheme[i]);
        }
    }
    let n = (8 + host.len()) as int;
    lemma_find_from(base, slash, 8);
    assert(base[n] == '/');
    assert(base.subrange(n, n + 1) =~= slash);
    assert(occurs_at(base, slash, n));
    let k = find_from(base, slash, 8)->0;
    assert(k == n) by {
        if k < n {
            assert(base.subrange(k, k + 1)[0] == base[k]);
            assert(base[k] == host[k - 8]);
            assert(host.contains(host[k - 8]));
        }
    }
    assert(base.subrange(0, n) =~= scheme + host);
    assert(begins(scheme + path, scheme)) by {
        assert((scheme + path).subrange(0, 8) =~= scheme);
    }
}

/// An answer that says where a document is has it fetched there, as far as redirections
/// are left; any other answer is read, and a refusal is not.
pub proof fn law_redirections_are_followed(
    f: FetchV,
    status: u16,
    location: Seq<char>,
    body: Seq<char>,
)
    requires
        f.left > 0,
    ensures
        ({
            let moved = HttpReplyV::Answer { status, location: Some(location) };
            let (g, step) = fetch_step(f, moved);
            &&& 300 <= status < 400 ==> step is Again && g.url == redirected(f.url, location)
                && g.left == f.left - 1
            &&& !(300 <= status < 400) ==> step is Read && g == f
            &&& !(300 <= status < 400) ==> fetch_step(
                f,
                HttpReplyV::Refused { status, location: None, body },
            ).1 is Fail
        }),
{
}

// ---------------------------------------------------------------------------
// The fetch service
// ---------------------------------------------------------------------------

/// A request to the fetch service names the method, the address and each header, in order
/// and one to a line, then how much may come back and how long the body is. A header with
/// a control character in it is refused, so that no header can pass for more lines.
pub proof fn law_fetch_request_is_line_by_line(
    method: Seq<char>,
    url: Seq<char>,
    hs: Seq<(Seq<char>, Seq<char>)>,
    name: Seq<char>,
    value: Seq<char>,
    n: nat,
    limit: u64,
)
    ensures
        request_head(method, url, Seq::empty(), n, Some(limit)) == Ok::<Seq<char>, ErrorV>(
            "td-fetch 1"@ + "\nmethod "@ + method + "\nurl "@ + url + "\n"@ + "limit "@ + decimal(
                limit as nat,
            ) + "\nbody "@ + decimal(n) + "\n\n"@,
        ),
        ({
            let start = "td-fetch 1"@ + "\nmethod "@ + method + "\nurl "@ + url + "\n"@;
            let before = head_upto(start, hs, hs.len() as int);
            let after = head_upto(start, hs.push((name, value)), (hs.len() + 1) as int);
            &&& before is Ok && !has_control(value) ==> after == Ok::<Seq<char>, ErrorV>(
                before->Ok_0 + "header "@ + name + ": "@ + value + "\n"@,
            )
            &&& has_control(value) || before is Err ==> after is Err
            &&& request_head(method, url, hs, n, Some(limit)) is Ok <==> before is Ok
        }),
{
    let start = "td-fetch 1"@ + "\nmethod "@ + method + "\nurl "@ + url + "\n"@;
    let more = hs.push((name, value));
    lemma_head_prefix(start, hs, more, hs.len() as int);
    assert(more[hs.len() as int] == (name, value));
}

proof fn lemma_head_prefix(
    start: Seq<char>,
    hs: Seq<(Seq<char>, Seq<char>)>,
    more: Seq<(Seq<char>, Seq<char>)>,
    k: int,
)
    requires
        0 <= k <= hs.len() <= more.len(),
        forall|i: int| 0 <= i < hs.len() ==> #[trigger] more[i] == hs[i],
    ensures
        head_upto(start, more, k) == head_upto(start, hs, k),
    decreases k,
{
    if k > 0 {
        lemma_head_prefix(start, hs, more, k - 1);
        assert(more[k - 1] == hs[k - 1]);
    }
}

proof fn lemma_first_space(key: Seq<char>, value: Seq<char>)
    requires
        !key.contains(' '),
    ensures
        key_and_value(key + seq![' '] + value) == (key, value),
{
    reveal_strlit(" ");
    let t = key + seq![' '] + value;
    let sep = " "@;
    let p = key.len() as int;
    assert(sep =~= seq![' ']);
    assert(t[p] == ' ');
    lemma_find_from(t, sep, 0);
    assert(t.subrange(p, p + 1) =~= sep);
    assert(occurs_at(t, sep, p));
    let k = find(t, sep)->0;
    assert(t.subrange(k, k + 1)[0] == t[k]);
    assert(k == p) by {
        if k < p {
            assert(key[k] == ' ');
        }
    }
    assert(t.subrange(0, p) =~= key);
    assert(t.subrange(p + 1, t.len() as int) =~= value);
}

/// A line of a reply sets the status or the length of the body, or announces an error, as
/// its first word says.
pub proof fn law_reply_lines_set_their_own_part(h: HeadV, value: Seq<char>, n: nat)
    ensures
        ({
            let status = head_line(h, "status"@ + seq![' '] + value);
            let body = head_line(h, "body"@ + seq![' '] + value);
            &&& number_upto(value, u16::MAX as nat) == Some(n) ==> status is Ok && status->Ok_0 == (
            HeadV { status: Some(n as u16), ..h })
            &&& number_upto(value, u16::MAX as nat) is None ==> status is Err
            &&& number_upto(value, u64::MAX as nat) == Some(n) ==> body is Ok && body->Ok_0 == (
            HeadV { body_len: n as u64, ..h })
            &&& number_upto(value, u64::MAX as nat) is None ==> body is Err
            &&& head_line(h, "error"@ + seq![' '] + value) is Err
        }),
{
    reveal_strlit("status");
    reveal_strlit("header");
    reveal_strlit("body");
    reveal_strlit("error");
    assert("status"@.len() == 6 && "header"@.len() == 6 && "body"@.len() == 4 && "error"@.len()
        == 5);
    assert("status"@[0] == 's' && "header"@[0] == 'h');
    assert(!"status"@.contains(' ') && !"body"@.contains(' ') && !"error"@.contains(' '));
    lemma_first_space("status"@, value);
    lemma_first_space("body"@, value);
    lemma_first_space("error"@, value);
}

/// The body of an answer is the bytes behind its head, as many as were announced; where
/// fewer came, or where there is no status, there is no answer.
pub proof fn law_body_is_what_was_announced(bytes: Seq<u8>, pos: int, h: HeadV)
    requires
        0 <= pos <= bytes.len(),
    ensures
        h.status is Some && pos + h.body_len <= bytes.len() ==> with_body(bytes, pos, h) == Ok::<
            ResponseV,
            ErrorV,
        >(
            ResponseV {
                status: h.status->0,
                headers: h.headers,
                body: bytes.subrange(pos, pos + h.body_len),
            },
        ),
        h.status is None || pos + h.body_len > bytes.len() ==> with_body(bytes, pos, h) is Err,
{
}

// ---------------------------------------------------------------------------
// Credentials
// ---------------------------------------------------------------------------

/// The six bits that a character of base64 stands for.
pub open spec fn sextet(c: char) -> int {
    if 'A' <= c && c <= 'Z' {
        c as int - 'A' as int
    } else if 'a' <= c && c <= 'z' {
        c as int - 'a' as int + 26
    } else if '0' <= c && c <= '9' {
        c as int - '0' as int + 52
    } else if c == '+' {
        62
    } else {
        63
    }
}

/// The bytes that a text of base64 stands for: each four characters are three bytes, or
/// two where one `=` stands at the end, or one where two do.
pub open spec fn unpacked(t: Seq<char>) -> Seq<u8>
    decreases t.len(),
{
    if t.len() < 4 {
        Seq::empty()
    } else {
        let bits = sextet(t[0]) * 262144 + sextet(t[1]) * 4096;
        if t[2] == '=' {
            seq![(bits / 65536) as u8]
        } else if t[3] == '=' {
            let more = bits + sextet(t[2]) * 64;
            seq![(more / 65536) as u8, (more / 256 % 256) as u8]
        } else {
            let all = bits + sextet(t[2]) * 64 + sextet(t[3]);
            seq![(all / 65536) as u8, (all / 256 % 256) as u8, (all % 256) as u8] + unpacked(
                t.skip(4),
            )
        }
    }
}

proof fn lemma_sextet(n: int)
    requires
        0 <= n < 64,
    ensures
        sextet(base64_char(n)) == n,
        base64_char(n) != '=',
{
}

proof fn lemma_bits(x: int, y: int, z: int)
    requires
        0 <= x < 256,
        0 <= y < 256,
        0 <= z < 256,
    ensures
        ({
            let all = x / 4 * 262144 + (x % 4 * 16 + y / 16) * 4096 + (y % 16 * 4 + z / 64) * 64 + z
                % 64;
            &&& all == x * 65536 + y * 256 + z
            &&& all / 65536 == x
            &&& all / 256 % 256 == y
            &&& all % 256 == z
        }),
{
    let all = x / 4 * 262144 + (x % 4 * 16 + y / 16) * 4096 + (y % 16 * 4 + z / 64) * 64 + z % 64;
    assert(x == x / 4 * 4 + x % 4);
    assert(y == y / 16 * 16 + y % 16);
    assert(z == z / 64 * 64 + z % 64);
    assert(all == x * 65536 + y * 256 + z);
    assert(all / 65536 == x);
    assert(all / 256 == x * 256 + y);
}

/// Four characters of base64 in front of others stand for their three bytes in front of
/// the others' bytes.
proof fn lemma_four(t: Seq<char>, a: int, b: int, c: int, d: int)
    requires
        0 <= a < 64 && 0 <= b < 64 && 0 <= c < 64 && 0 <= d < 64,
        t.len() >= 4,
        t[0] == base64_char(a) && t[1] == base64_char(b),
    ensures
        ({
            let bits = a * 262144 + b * 4096;
            &&& t[2] == '=' ==> unpacked(t) == seq![(bits / 65536) as u8]
            &&& t[2] == base64_char(c) && t[3] == '=' ==> unpacked(t) == seq![
                ((bits + c * 64) / 65536) as u8,
                ((bits + c * 64) / 256 % 256) as u8,
            ]
            &&& t[2] == base64_char(c) && t[3] == base64_char(d) ==> unpacked(t) == seq![
                ((bits + c * 64 + d) / 65536) as u8,
                ((bits + c * 64 + d) / 256 % 256) as u8,
                ((bits + c * 64 + d) % 256) as u8,
            ] + unpacked(t.skip(4))
        }),
{
    lemma_sextet(a);
    lemma_sextet(b);
    lemma_sextet(c);
    lemma_sextet(d);
}

proof fn lemma_unpacked(b: Seq<u8>)
    ensures
        unpacked(base64_of(b)) == b,
        base64_of(b).len() % 4 == 0,
    decreases b.len(),
{
    let t = base64_of(b);
    if b.len() == 0 {
        assert(t =~= Seq::empty());
        assert(unpacked(t) =~= b);
    } else {
        let x = b[0] as int;
        let y = if b.len() > 1 {
            b[1] as int
        } else {
            0
        };
        let z = if b.len() > 2 {
            b[2] as int
        } else {
            0
        };
        lemma_bits(x, y, z);
        lemma_four(t, x / 4, x % 4 * 16 + y / 16, y % 16 * 4 + z / 64, z % 64);
        if b.len() == 1 {
            assert(unpacked(t) =~= seq![x as u8]);
            assert(unpacked(t) =~= b);
        } else if b.len() == 2 {
            assert(unpacked(t) =~= seq![x as u8, y as u8]);
            assert(unpacked(t) =~= b);
        } else {
            let rest = b.subrange(3, b.len() as int);
            lemma_unpacked(rest);
            assert(t.skip(4) =~= base64_of(rest));
            assert(unpacked(t) =~= seq![x as u8, y as u8, z as u8] + rest);
            assert(unpacked(t) =~= b);
        }
    }
}

/// What is sent to prove who asks is the scheme's name and, in base64, the bytes of the
/// user's name, a colon and the password.
pub proof fn law_credentials_are_user_and_password(user: Seq<char>, password: Seq<char>)
    ensures
        begins(auth_text(user, password), "Basic "@),
        unpacked(auth_text(user, password).skip(6)) == encode_utf8(
            user + ":"@ + password,
        ),
        auth_text(user, password).skip(6).len() % 4 == 0,
{
    reveal_strlit("Basic ");
    assert("Basic "@.len() == 6);
    let b = encode_utf8(user + ":"@ + password);
    lemma_unpacked(b);
    let t = auth_text(user, password);
    assert(t.subrange(0, 6) =~= "Basic "@);
    assert(t.skip(6) =~= base64_of(b));
}

proof fn lemma_line_ends(s: Seq<char>, n: nat)
    requires
        s.len() > 0 ==> s.last() != '\n',
    ensures
        without_line_ends(s + Seq::new(n, |i: int| '\n')) == s,
    decreases n,
{
    let t = s + Seq::new(n, |i: int| '\n');
    if n == 0 {
        assert(t =~= s);
    } else {
        lemma_line_ends(s, (n - 1) as nat);
        assert(t.last() == '\n');
        assert(t.drop_last() =~= s + Seq::new((n - 1) as nat, |i: int| '\n'));
    }
}

/// The password is what its command printed, without the line ends behind it; a command
/// that failed, or that printed no text, gives none.
pub proof fn law_password_is_what_was_printed(
    o: CommandOutputV,
    password: Seq<char>,
    n: nat,
    e: Seq<char>,
)
    requires
        password.len() > 0 ==> password.last() != '\n',
    ensures
        o.success && valid_utf8(o.stdout) && decode_utf8(o.stdout) == password + Seq::new(
            n,
            |i: int| '\n',
        ) ==> password_of(Ok(o)) == Ok::<Seq<char>, Seq<char>>(password),
        !o.success || !valid_utf8(o.stdout) ==> password_of(Ok(o)) is Err,
        password_of(Err(e)) is Err,
{
    lemma_line_ends(password, n);
}

// ---------------------------------------------------------------------------
// Download addresses
// ---------------------------------------------------------------------------

proof fn lemma_replaced_shift(s: Seq<char>, p: Seq<char>, q: Seq<char>, d: int, i: int)
    requires
        p.len() > 0,
        0 <= d,
        0 <= i,
        d + i <= s.len(),
    ensures
        replaced_from(s, p, q, d + i) == replaced_from(s.skip(d), p, q, i),
    decreases s.len() - d - i,
{
    let t = s.skip(d);
    if d + i < s.len() {
        if i + p.len() <= t.len() {
            assert(t.subrange(i, i + p.len()) =~= s.subrange(d + i, d + i + p.len()));
        }
        if occurs_at(s, p, d + i) {
            lemma_replaced_shift(s, p, q, d, i + p.len() as int);
        } else {
            lemma_replaced_shift(s, p, q, d, i + 1);
        }
    }
}

/// Whether no place for a value begins in a text.
pub open spec fn no_place(s: Seq<char>) -> bool {
    forall|i: int| 0 <= i < s.len() ==> #[trigger] s[i] != '{'
}

proof fn lemma_replaced_plain(x: Seq<char>, r: Seq<char>, p: Seq<char>, q: Seq<char>)
    requires
        p.len() > 1,
        p[0] == '{',
        no_place(x) || (x.len() > 1 && x[1] != p[1] && no_place(x.skip(1))),
    ensures
        replaced(x + r, p, q) == x + replaced(r, p, q),
    decreases x.len(),
{
    let s = x + r;
    if x.len() == 0 {
        assert(s =~= r);
        assert(x + replaced(r, p, q) =~= replaced(r, p, q));
    } else {
        if occurs_at(s, p, 0) {
            assert(s.subrange(0, p.len() as int)[0] == s[0]);
            assert(s.subrange(0, p.len() as int)[1] == s[1]);
        }
        lemma_replaced_shift(s, p, q, 1, 0);
        assert(s.skip(1) =~= x.skip(1) + r);
        assert forall|i: int| 0 <= i < x.skip(1).len() implies #[trigger] x.skip(1)[i] != '{' by {
            if no_place(x) {
                assert(x[i + 1] != '{');
            }
        }
        lemma_replaced_plain(x.skip(1), r, p, q);
        assert(seq![x[0]] + (x.skip(1) + replaced(r, p, q)) =~= x + replaced(r, p, q));
    }
}

proof fn lemma_replaced_place(r: Seq<char>, p: Seq<char>, q: Seq<char>)
    requires
        p.len() > 0,
    ensures
        replaced(p + r, p, q) == q + replaced(r, p, q),
{
    let s = p + r;
    assert(s.subrange(0, p.len() as int) =~= p);
    lemma_replaced_shift(s, p, q, p.len() as int, 0);
    assert(s.skip(p.len() as int) =~= r);
}

proof fn lemma_replaced_end(x: Seq<char>, p: Seq<char>, q: Seq<char>)
    requires
        p.len() > 1,
        p[0] == '{',
        no_place(x),
    ensures
        replaced(x, p, q) == x,
{
    let none = Seq::<char>::empty();
    lemma_replaced_plain(x, none, p, q);
    assert(x + none =~= x);
    assert(x + replaced(none, p, q) =~= x);
}

/// In the address of a download each value stands in the place that the server's pattern
/// gives it, and the rest of the pattern stands as it is.
pub proof fn law_download_address_has_each_value_in_its_place(
    a: Seq<char>,
    b: Seq<char>,
    c: Seq<char>,
    d: Seq<char>,
    e: Seq<char>,
    account: Seq<char>,
    blob: Seq<char>,
    name: Seq<char>,
    kind: Seq<char>,
)
    requires
        no_place(a) && no_place(b) && no_place(c) && no_place(d) && no_place(e),
        no_place(account) && no_place(blob) && no_place(name),
    ensures
        blob_url(
            a + ("{accountId}"@ + (b + ("{blobId}"@ + (c + ("{name}"@ + (d + ("{type}"@ + e))))))),
            account,
            blob,
            name,
            kind,
        ) == a + (account + (b + (blob + (c + (name + (d + (kind + e))))))),
{
    let (pa, pb, pn, pt) = ("{accountId}"@, "{blobId}"@, "{name}"@, "{type}"@);
    reveal_strlit("{accountId}");
    reveal_strlit("{blobId}");
    reveal_strlit("{name}");
    reveal_strlit("{type}");
    assert(pa.len() == 11 && pa[0] == '{' && pa[1] == 'a');
    assert(pb.len() == 8 && pb[0] == '{' && pb[1] == 'b');
    assert(pn.len() == 6 && pn[0] == '{' && pn[1] == 'n');
    assert(pt.len() == 6 && pt[0] == '{' && pt[1] == 't');
    assert(no_place(pb.skip(1)));
    assert(no_place(pn.skip(1)));
    assert(no_place(pt.skip(1)));
    let t = pt + e;
    let n = pn + (d + t);
    let l = pb + (c + n);
    let r = pa + (b + l);
    // The account.
    lemma_replaced_plain(a, r, pa, account);
    lemma_replaced_place(b + l, pa, account);
    lemma_replaced_plain(b, l, pa, account);
    lemma_replaced_plain(pb, c + n, pa, account);
    lemma_replaced_plain(c, n, pa, account);
    lemma_replaced_plain(pn, d + t, pa, account);
    lemma_replaced_plain(d, t, pa, account);
    lemma_replaced_plain(pt, e, pa, account);
    lemma_replaced_end(e, pa, account);
    // The blob.
    lemma_replaced_plain(a, account + (b + l), pb, blob);
    lemma_replaced_plain(account, b + l, pb, blob);
    lemma_replaced_plain(b, l, pb, blob);
    lemma_replaced_place(c + n, pb, blob);
    lemma_replaced_plain(c, n, pb, blob);
    lemma_replaced_plain(pn, d + t, pb, blob);
    lemma_replaced_plain(d, t, pb, blob);
    lemma_replaced_plain(pt, e, pb, blob);
    lemma_replaced_end(e, pb, blob);
    // The name.
    let m = blob + (c + n);
    lemma_replaced_plain(a, account + (b + m), pn, name);
    lemma_replaced_plain(account, b + m, pn, name);
    lemma_replaced_plain(b, m, pn, name);
    lemma_replaced_plain(blob, c + n, pn, name);
    lemma_replaced_plain(c, n, pn, name);
    lemma_replaced_place(d + t, pn, name);
    lemma_replaced_plain(d, t, pn, name);
    lemma_replaced_plain(pt, e, pn, name);
    lemma_replaced_end(e, pn, name);
    // The type.
    let o = name + (d + t);
    let k = blob + (c + o);
    lemma_replaced_plain(a, account + (b + k), pt, kind);
    lemma_replaced_plain(account, b + k, pt, kind);
    lemma_replaced_plain(b, k, pt, kind);
    lemma_replaced_plain(blob, c + o, pt, kind);
    lemma_replaced_plain(c, o, pt, kind);
    lemma_replaced_plain(name, d + t, pt, kind);
    lemma_replaced_plain(d, t, pt, kind);
    lemma_replaced_place(e, pt, kind);
    lemma_replaced_end(e, pt, kind);
}

proof fn lemma_changes(ids: Seq<Seq<char>>, change: JsonV, k: int)
    requires
        0 <= k <= ids.len(),
    ensures
        changes_upto(ids, change, k) == Seq::new(k as nat, |i: int| (ids[i], change)),
    decreases k,
{
    if k > 0 {
        lemma_changes(ids, change, k - 1);
    }
    assert(changes_upto(ids, change, k) =~= Seq::new(k as nat, |i: int| (ids[i], change)));
}

/// A change of several messages at once names every one of them, each with the change.
pub proof fn law_change_names_every_message(ids: Seq<Seq<char>>, change: JsonV)
    ensures
        changes_upto(ids, change, ids.len() as int) == Seq::new(
            ids.len(),
            |i: int| (ids[i], change),
        ),
{
    lemma_changes(ids, change, ids.len() as int);
}

} // verus!
