//! The framing of requests to a fetch service and of its replies.
//!
//! A request is a head of text lines, a blank line and a body. So is a reply,
//! unless a line `error` says why there is none. A request is written whole
//! before anything is read, and a failed write counts only if there is no reply.

use vstd::prelude::*;
use vstd::utf8::*;

use crate::data::{at, no_items, put};
use crate::text::{
    after_prefix, cut, debug_form, debug_text, dec, decimal, from_utf8, number_upto, parse_upto,
    same, split_once, strip_prefix, to_chars,
};

verus! {

broadcast use vstd::seq_lib::group_seq_properties;

/// The first line of a request and of a reply.
pub open spec fn protocol() -> Seq<char> {
    "td-fetch 1"@
}

/// The bound on a head line, its line feed counted.
pub const MAX_LINE: usize = 8192;

/// The bound on a body that is asked for when the caller names none.
pub const DEFAULT_LIMIT: u64 = 67108864;

/// An answer that the service has fetched. The names of headers are in small
/// letters, in the order in which they were sent.
#[derive(Debug)]
pub struct Response {
    pub status: u16,
    pub headers: Vec<(String, String)>,
    pub body: Vec<u8>,
}

/// The contents of a `Response`.
pub struct ResponseV {
    pub status: u16,
    pub headers: Seq<(Seq<char>, Seq<char>)>,
    pub body: Seq<u8>,
}

impl DeepView for Response {
    type V = ResponseV;

    open spec fn deep_view(&self) -> ResponseV {
        ResponseV { status: self.status, headers: self.headers.deep_view(), body: self.body@ }
    }
}

/// The first value at or after `i` of a header.
pub open spec fn header_from(hs: Seq<(Seq<char>, Seq<char>)>, name: Seq<char>, i: int) -> Option<
    Seq<char>,
>
    decreases hs.len() - i,
{
    if i >= hs.len() {
        None
    } else if hs[i].0 == name {
        Some(hs[i].1)
    } else {
        header_from(hs, name, i + 1)
    }
}

impl Response {
    /// The first value of a header, whose name is given in small letters.
    pub fn header(&self, name: &str) -> (r: Option<&str>)
        ensures
            match r {
                Some(v) => header_from(self.deep_view().headers, name@, 0) == Some(v@),
                None => header_from(self.deep_view().headers, name@, 0) is None,
            },
    {
        let mut i: usize = 0;
        while i < self.headers.len()
            invariant
                i <= self.headers@.len(),
                header_from(self.headers.deep_view(), name@, 0) == header_from(
                    self.headers.deep_view(),
                    name@,
                    i as int,
                ),
            decreases self.headers@.len() - i,
        {
            let h = at(self.headers.as_slice(), i);
            if same(h.0.as_str(), name) {
                return Some(h.1.as_str());
            }
            i = i + 1;
        }
        None
    }
}

/// Why there is no answer: the service refused, it found the request malformed,
/// the network failed, or the reply could not be read.
#[derive(Debug)]
pub enum Error {
    Refused(String),
    Malformed(String),
    Transport(String),
    Io(String),
}

/// The contents of an `Error`.
pub enum ErrorV {
    Refused(Seq<char>),
    Malformed(Seq<char>),
    Transport(Seq<char>),
    Io(Seq<char>),
}

impl DeepView for Error {
    type V = ErrorV;

    open spec fn deep_view(&self) -> ErrorV {
        match self {
            Error::Refused(m) => ErrorV::Refused(m@),
            Error::Malformed(m) => ErrorV::Malformed(m@),
            Error::Transport(m) => ErrorV::Transport(m@),
            Error::Io(m) => ErrorV::Io(m@),
        }
    }
}

/// How an error is shown.
pub open spec fn shown_error(e: ErrorV) -> Seq<char> {
    match e {
        ErrorV::Refused(m) => "refused by the fetch service: "@ + m,
        ErrorV::Malformed(m) => "the fetch service found the request malformed: "@ + m,
        ErrorV::Transport(m) => m,
        ErrorV::Io(m) => "fetch service: "@ + m,
    }
}

fn text_with(a: &str, b: &str) -> (r: String)
    ensures
        r@ == a@ + b@,
{
    let mut s = a.to_owned();
    s.append(b);
    s
}

impl Error {
    /// How an error is shown.
    pub fn to_string(&self) -> (r: String)
        ensures
            r@ == shown_error(self.deep_view()),
    {
        match self {
            Error::Refused(m) => text_with("refused by the fetch service: ", m.as_str()),
            Error::Malformed(m) => text_with(
                "the fetch service found the request malformed: ",
                m.as_str(),
            ),
            Error::Transport(m) => m.clone(),
            Error::Io(m) => text_with("fetch service: ", m.as_str()),
        }
    }
}

// ---------------------------------------------------------------------------
// Requests
// ---------------------------------------------------------------------------

/// Whether a character is an ASCII control character.
pub open spec fn control(c: char) -> bool {
    c <= '\u{1f}' || c == '\u{7f}'
}

/// Whether a text holds a control character.
pub open spec fn has_control(s: Seq<char>) -> bool {
    exists|i: int| 0 <= i < s.len() && control(#[trigger] s[i])
}

fn holds_control(s: &str) -> (r: bool)
    ensures
        r == has_control(s@),
{
    let v = to_chars(s);
    let mut i: usize = 0;
    while i < v.len()
        invariant
            v@ == s@,
            i <= v@.len(),
            forall|j: int| 0 <= j < i ==> !control(#[trigger] s@[j]),
        decreases v@.len() - i,
    {
        if v[i] <= '\u{1f}' || v[i] == '\u{7f}' {
            assert(control(s@[i as int]));
            return true;
        }
        i = i + 1;
    }
    false
}

/// The head with the first `k` headers, or the error about the first of them
/// that holds a control character.
pub open spec fn head_upto(
    start: Seq<char>,
    headers: Seq<(Seq<char>, Seq<char>)>,
    k: int,
) -> Result<Seq<char>, ErrorV>
    decreases k,
{
    if k <= 0 {
        Ok(start)
    } else {
        match head_upto(start, headers, k - 1) {
            Ok(h) => if has_control(headers[k - 1].1) {
                Err(
                    ErrorV::Malformed(
                        "header "@ + debug_form(headers[k - 1].0) + " carries a control byte"@,
                    ),
                )
            } else {
                Ok(h + "header "@ + headers[k - 1].0 + ": "@ + headers[k - 1].1 + "\n"@)
            },
            Err(e) => Err(e),
        }
    }
}

proof fn lemma_head_err(start: Seq<char>, headers: Seq<(Seq<char>, Seq<char>)>, i: int, k: int)
    requires
        0 <= i <= k,
        head_upto(start, headers, i) is Err,
    ensures
        head_upto(start, headers, k) == head_upto(start, headers, i),
    decreases k - i,
{
    if i < k {
        lemma_head_err(start, headers, i, k - 1);
    }
}

/// The head of a request.
pub open spec fn request_head(
    method: Seq<char>,
    url: Seq<char>,
    headers: Seq<(Seq<char>, Seq<char>)>,
    body_len: nat,
    limit: Option<u64>,
) -> Result<Seq<char>, ErrorV> {
    let start = protocol() + "\nmethod "@ + method + "\nurl "@ + url + "\n"@;
    match head_upto(start, headers, headers.len() as int) {
        Ok(h) => Ok(
            h + "limit "@ + decimal(
                match limit {
                    Some(n) => n as nat,
                    None => DEFAULT_LIMIT as nat,
                },
            ) + "\nbody "@ + decimal(body_len) + "\n\n"@,
        ),
        Err(e) => Err(e),
    }
}

/// The head of a request.
pub fn request(
    method: &str,
    url: &str,
    headers: &[(&str, &str)],
    body_len: usize,
    limit: Option<u64>,
) -> (r: Result<String, Error>)
    ensures
        match r {
            Ok(h) => request_head(method@, url@, headers.deep_view(), body_len as nat, limit)
                == Ok::<Seq<char>, ErrorV>(h@),
            Err(e) => request_head(method@, url@, headers.deep_view(), body_len as nat, limit)
                == Err::<Seq<char>, ErrorV>(e.deep_view()),
        },
{
    let mut head = "td-fetch 1".to_owned();
    head.append("\nmethod ");
    head.append(method);
    head.append("\nurl ");
    head.append(url);
    head.append("\n");
    let ghost start = head@;
    let ghost hv = headers.deep_view();
    let mut i: usize = 0;
    while i < headers.len()
        invariant
            i <= headers@.len(),
            hv == headers.deep_view(),
            head_upto(start, hv, i as int) == Ok::<Seq<char>, ErrorV>(head@),
            start == protocol() + "\nmethod "@ + method@ + "\nurl "@ + url@ + "\n"@,
        decreases headers@.len() - i,
    {
        let h = at(headers, i);
        if holds_control(h.1) {
            let mut m = "header ".to_owned();
            m.append(debug_text(h.0).as_str());
            m.append(" carries a control byte");
            proof {
                lemma_head_err(start, hv, i + 1, hv.len() as int);
            }
            return Err(Error::Malformed(m));
        }
        head.append("header ");
        head.append(h.0);
        head.append(": ");
        head.append(h.1);
        head.append("\n");
        i = i + 1;
    }
    let n: u64 = match limit {
        Some(n) => n,
        None => DEFAULT_LIMIT,
    };
    head.append("limit ");
    head.append(dec(n).as_str());
    head.append("\nbody ");
    head.append(dec(body_len as u64).as_str());
    head.append("\n\n");
    Ok(head)
}

/// The head of a request for `url` with `headers`, whose names are in small
/// letters; nothing follows it.
pub fn get(url: &str, headers: &[(&str, &str)], limit: Option<u64>) -> (r: Result<String, Error>)
    ensures
        match r {
            Ok(h) => request_head("GET"@, url@, headers.deep_view(), 0, limit) == Ok::<
                Seq<char>,
                ErrorV,
            >(h@),
            Err(e) => request_head("GET"@, url@, headers.deep_view(), 0, limit) == Err::<
                Seq<char>,
                ErrorV,
            >(e.deep_view()),
        },
{
    request("GET", url, headers, 0, limit)
}

/// The head of a request that sends `body` to `url`; the body follows it.
pub fn post(url: &str, headers: &[(&str, &str)], body: &[u8], limit: Option<u64>) -> (r: Result<
    String,
    Error,
>)
    ensures
        match r {
            Ok(h) => request_head("POST"@, url@, headers.deep_view(), body@.len(), limit) == Ok::<
                Seq<char>,
                ErrorV,
            >(h@),
            Err(e) => request_head("POST"@, url@, headers.deep_view(), body@.len(), limit)
                == Err::<Seq<char>, ErrorV>(e.deep_view()),
        },
{
    request("POST", url, headers, body.len(), limit)
}

// ---------------------------------------------------------------------------
// Replies
// ---------------------------------------------------------------------------

/// The position of the first line feed at or after `i`, or the number of bytes.
pub open spec fn line_feed(bytes: Seq<u8>, i: int) -> int
    decreases bytes.len() - i,
{
    if i >= bytes.len() {
        bytes.len() as int
    } else if bytes[i] == 10 {
        i
    } else {
        line_feed(bytes, i + 1)
    }
}

/// The line at a position, and where the next one begins.
pub open spec fn line_at(bytes: Seq<u8>, pos: int) -> Result<(Seq<char>, int), ErrorV> {
    let end = line_feed(bytes, pos);
    if pos >= bytes.len() {
        Err(ErrorV::Io("the service closed without a reply"@))
    } else if end >= bytes.len() || end - pos >= MAX_LINE {
        Err(ErrorV::Io("a reply line past the bound"@))
    } else if !valid_utf8(bytes.subrange(pos, end)) {
        Err(ErrorV::Io("a reply line that is not UTF-8"@))
    } else {
        Ok((decode_utf8(bytes.subrange(pos, end)), end + 1))
    }
}

proof fn lemma_line_feed(bytes: Seq<u8>, i: int)
    requires
        0 <= i <= bytes.len(),
    ensures
        i <= line_feed(bytes, i) <= bytes.len(),
    decreases bytes.len() - i,
{
    if i < bytes.len() && bytes[i] != 10 {
        lemma_line_feed(bytes, i + 1);
    }
}

/// The line at a position, and where the next one begins.
pub fn read_line(bytes: &[u8], pos: usize) -> (r: Result<(String, usize), Error>)
    requires
        pos <= bytes@.len(),
    ensures
        match r {
            Ok((line, next)) => line_at(bytes@, pos as int) == Ok::<(Seq<char>, int), ErrorV>(
                (line@, next as int),
            ) && pos < next <= bytes@.len(),
            Err(e) => line_at(bytes@, pos as int) == Err::<(Seq<char>, int), ErrorV>(
                e.deep_view(),
            ),
        },
{
    if pos >= bytes.len() {
        return Err(Error::Io("the service closed without a reply".to_owned()));
    }
    let mut line: Vec<u8> = Vec::new();
    let mut end: usize = pos;
    assert(line@ =~= bytes@.subrange(pos as int, pos as int));
    while end < bytes.len() && bytes[end] != 10
        invariant
            pos <= end <= bytes@.len(),
            line@ == bytes@.subrange(pos as int, end as int),
            line_feed(bytes@, pos as int) == line_feed(bytes@, end as int),
        decreases bytes@.len() - end,
    {
        assert(bytes@.subrange(pos as int, end as int).push(bytes@[end as int]) =~= bytes@.subrange(
            pos as int,
            end + 1,
        ));
        line.push(bytes[end]);
        end = end + 1;
    }
    if end >= bytes.len() || end - pos >= MAX_LINE {
        return Err(Error::Io("a reply line past the bound".to_owned()));
    }
    match from_utf8(line) {
        Ok(s) => Ok((s, end + 1)),
        Err(_) => Err(Error::Io("a reply line that is not UTF-8".to_owned())),
    }
}

/// What has been read of the head of a reply.
pub struct HeadV {
    pub status: Option<u16>,
    pub headers: Seq<(Seq<char>, Seq<char>)>,
    pub body_len: u64,
}

/// The word and the rest of a line.
pub open spec fn key_and_value(line: Seq<char>) -> (Seq<char>, Seq<char>) {
    match cut(line, " "@) {
        Some(p) => p,
        None => (line, Seq::empty()),
    }
}

/// The error that an `error` line announces.
pub open spec fn announced_error(value: Seq<char>) -> ErrorV {
    let (kind, reason) = match cut(value, ": "@) {
        Some(p) => p,
        None => (value, Seq::empty()),
    };
    if kind == "refused"@ {
        ErrorV::Refused(reason)
    } else if kind == "malformed"@ {
        ErrorV::Malformed(reason)
    } else if kind == "transport"@ {
        ErrorV::Transport(reason)
    } else {
        ErrorV::Io("error "@ + debug_form(value))
    }
}

/// A header value without the space before it.
pub open spec fn without_space(value: Seq<char>) -> Seq<char> {
    match after_prefix(value, " "@) {
        Some(v) => v,
        None => value,
    }
}

/// Why a reply holds no answer, and whether the service said so itself.
pub struct FaultV {
    pub error: ErrorV,
    pub announced: bool,
}

/// A reply that cannot be read.
pub open spec fn unreadable(error: ErrorV) -> FaultV {
    FaultV { error, announced: false }
}

/// What a line of the head adds.
pub open spec fn head_line(h: HeadV, line: Seq<char>) -> Result<HeadV, FaultV> {
    let (key, value) = key_and_value(line);
    if key == "status"@ {
        match number_upto(value, u16::MAX as nat) {
            Some(n) => Ok(HeadV { status: Some(n as u16), ..h }),
            None => Err(unreadable(ErrorV::Io("status "@ + debug_form(value)))),
        }
    } else if key == "header"@ {
        match cut(value, ":"@) {
            Some((name, v)) => Ok(HeadV { headers: h.headers.push((name, without_space(v))), ..h }),
            None => Err(unreadable(ErrorV::Io("header line "@ + debug_form(value)))),
        }
    } else if key == "body"@ {
        match number_upto(value, u64::MAX as nat) {
            Some(n) => Ok(HeadV { body_len: n as u64, ..h }),
            None => Err(unreadable(ErrorV::Io("body "@ + debug_form(value)))),
        }
    } else if key == "error"@ {
        Err(FaultV { error: announced_error(value), announced: true })
    } else {
        Err(unreadable(ErrorV::Io("reply key "@ + debug_form(key))))
    }
}

/// The answer whose head has been read and whose body begins at `pos`.
pub open spec fn with_body(bytes: Seq<u8>, pos: int, h: HeadV) -> Result<ResponseV, ErrorV> {
    match h.status {
        None => Err(ErrorV::Io("a reply with no status"@)),
        Some(status) => if bytes.len() - pos < h.body_len {
            Err(
                ErrorV::Io(
                    "the body was "@ + decimal((bytes.len() - pos) as nat) + " bytes of the "@
                        + decimal(h.body_len as nat) + " announced"@,
                ),
            )
        } else {
            Ok(
                ResponseV {
                    status,
                    headers: h.headers,
                    body: bytes.subrange(pos, pos + h.body_len),
                },
            )
        },
    }
}

/// The answer whose head goes on at `pos`.
pub open spec fn reply_from(bytes: Seq<u8>, pos: int, h: HeadV) -> Result<ResponseV, FaultV>
    decreases bytes.len() - pos,
    when 0 <= pos <= bytes.len()
    via reply_from_decreases
{
    match line_at(bytes, pos) {
        Err(e) => Err(unreadable(e)),
        Ok((line, next)) => if line.len() == 0 {
            match with_body(bytes, next, h) {
                Ok(a) => Ok(a),
                Err(e) => Err(unreadable(e)),
            }
        } else {
            match head_line(h, line) {
                Ok(h2) => reply_from(bytes, next, h2),
                Err(e) => Err(e),
            }
        },
    }
}

#[via_fn]
proof fn reply_from_decreases(bytes: Seq<u8>, pos: int, h: HeadV) {
    lemma_line_feed(bytes, pos);
}

/// The answer that a reply holds, or why it holds none.
pub open spec fn reply_read(bytes: Seq<u8>) -> Result<ResponseV, FaultV> {
    match line_at(bytes, 0) {
        Err(e) => Err(unreadable(e)),
        Ok((first, next)) => if first != protocol() {
            Err(
                unreadable(
                    ErrorV::Io(
                        "the reply began "@ + debug_form(first) + ", not "@ + debug_form(
                            protocol(),
                        ),
                    ),
                ),
            )
        } else {
            reply_from(bytes, next, HeadV { status: None, headers: Seq::empty(), body_len: 0 })
        },
    }
}

/// The answer that a reply holds.
pub open spec fn reply(bytes: Seq<u8>) -> Result<ResponseV, ErrorV> {
    match reply_read(bytes) {
        Ok(a) => Ok(a),
        Err(f) => Err(f.error),
    }
}

fn io_error(a: &str, shown: &str) -> (r: Error)
    ensures
        r.deep_view() == ErrorV::Io(a@ + debug_form(shown@)),
{
    Error::Io(text_with(a, debug_text(shown).as_str()))
}

fn error_line(value: &str) -> (r: Error)
    ensures
        r.deep_view() == announced_error(value@),
{
    let (kind, reason) = match split_once(value, ": ") {
        Some(p) => p,
        None => (value.to_owned(), String::new()),
    };
    if same(kind.as_str(), "refused") {
        Error::Refused(reason)
    } else if same(kind.as_str(), "malformed") {
        Error::Malformed(reason)
    } else if same(kind.as_str(), "transport") {
        Error::Transport(reason)
    } else {
        io_error("error ", value)
    }
}

/// The answer that a reply holds, or why it holds none and whether the service said
/// so itself.
fn read_answer(bytes: &[u8]) -> (r: Result<Response, (Error, bool)>)
    ensures
        match r {
            Ok(a) => reply_read(bytes@) == Ok::<ResponseV, FaultV>(a.deep_view()),
            Err((e, announced)) => reply_read(bytes@) == Err::<ResponseV, FaultV>(
                FaultV { error: e.deep_view(), announced },
            ),
        },
{
    let (first, next) = match read_line(bytes, 0) {
        Ok(p) => p,
        Err(e) => {
            return Err((e, false));
        },
    };
    if !same(first.as_str(), "td-fetch 1") {
        let mut m = "the reply began ".to_owned();
        m.append(debug_text(first.as_str()).as_str());
        m.append(", not ");
        m.append(debug_text("td-fetch 1").as_str());
        return Err((Error::Io(m), false));
    }
    let mut status: Option<u16> = None;
    let mut headers: Vec<(String, String)> = no_items();
    let mut body_len: u64 = 0;
    let mut pos: usize = next;
    loop
        invariant
            pos <= bytes@.len(),
            reply_read(bytes@) == reply_from(
                bytes@,
                pos as int,
                HeadV { status, headers: headers.deep_view(), body_len },
            ),
        decreases bytes@.len() - pos,
    {
        let ghost h = HeadV { status, headers: headers.deep_view(), body_len };
        let (line, after) = match read_line(bytes, pos) {
            Ok(p) => p,
            Err(e) => {
                return Err((e, false));
            },
        };
        if line.as_str().is_empty() {
            let code: u16 = match status {
                Some(s) => s,
                None => {
                    return Err((Error::Io("a reply with no status".to_owned()), false));
                },
            };
            let rest: usize = bytes.len() - after;
            if (rest as u64) < body_len {
                let mut m = "the body was ".to_owned();
                m.append(dec(rest as u64).as_str());
                m.append(" bytes of the ");
                m.append(dec(body_len).as_str());
                m.append(" announced");
                return Err((Error::Io(m), false));
            }
            let end: usize = after + body_len as usize;
            let mut body: Vec<u8> = Vec::new();
            let mut i: usize = after;
            assert(body@ =~= bytes@.subrange(after as int, after as int));
            while i < end
                invariant
                    after <= i <= end <= bytes@.len(),
                    body@ == bytes@.subrange(after as int, i as int),
                decreases end - i,
            {
                assert(bytes@.subrange(after as int, i as int).push(bytes@[i as int])
                    =~= bytes@.subrange(after as int, i + 1));
                body.push(bytes[i]);
                i = i + 1;
            }
            return Ok(Response { status: code, headers, body });
        }
        let (key, value) = match split_once(line.as_str(), " ") {
            Some(p) => p,
            None => (line.clone(), String::new()),
        };
        if same(key.as_str(), "status") {
            match parse_upto(value.as_str(), u16::MAX as u64) {
                Some(n) => {
                    status = Some(n as u16);
                },
                None => {
                    return Err((io_error("status ", value.as_str()), false));
                },
            }
        } else if same(key.as_str(), "header") {
            match split_once(value.as_str(), ":") {
                Some((name, v)) => {
                    let bare = match strip_prefix(v.as_str(), " ") {
                        Some(b) => b,
                        None => v,
                    };
                    put(&mut headers, (name, bare));
                },
                None => {
                    return Err((io_error("header line ", value.as_str()), false));
                },
            }
        } else if same(key.as_str(), "body") {
            match parse_upto(value.as_str(), u64::MAX) {
                Some(n) => {
                    body_len = n;
                },
                None => {
                    return Err((io_error("body ", value.as_str()), false));
                },
            }
        } else if same(key.as_str(), "error") {
            return Err((error_line(value.as_str()), true));
        } else {
            return Err((io_error("reply key ", key.as_str()), false));
        }
        pos = after;
    }
}

/// The answer that a reply holds. The bytes are all that the service sent.
pub fn read_reply(bytes: &[u8]) -> (r: Result<Response, Error>)
    ensures
        match r {
            Ok(a) => reply(bytes@) == Ok::<ResponseV, ErrorV>(a.deep_view()),
            Err(e) => reply(bytes@) == Err::<ResponseV, ErrorV>(e.deep_view()),
        },
{
    match read_answer(bytes) {
        Ok(a) => Ok(a),
        Err((e, _)) => Err(e),
    }
}

/// What comes of a request: the reply, be it an answer or an error that the service
/// announced; where no reply can be read, why the request could not be written, if it
/// could not, and else why there is no reply.
pub open spec fn settled(
    answer: Result<ResponseV, FaultV>,
    write_error: Option<Seq<char>>,
) -> Result<ResponseV, ErrorV> {
    match (answer, write_error) {
        (Ok(a), _) => Ok(a),
        (Err(f), Some(w)) => if f.announced {
            Err(f.error)
        } else {
            Err(ErrorV::Io("write: "@ + w))
        },
        (Err(f), None) => Err(f.error),
    }
}

/// What comes of a request whose reply has been read, given the error that
/// writing it met, if any.
pub fn settle(bytes: &[u8], write_error: Option<String>) -> (r: Result<Response, Error>)
    ensures
        match r {
            Ok(a) => settled(reply_read(bytes@), write_error.deep_view()) == Ok::<
                ResponseV,
                ErrorV,
            >(a.deep_view()),
            Err(e) => settled(reply_read(bytes@), write_error.deep_view()) == Err::<
                ResponseV,
                ErrorV,
            >(e.deep_view()),
        },
{
    match read_answer(bytes) {
        Ok(a) => Ok(a),
        Err((e, announced)) => match write_error {
            Some(w) => if announced {
                Err(e)
            } else {
                Err(Error::Io(text_with("write: ", w.as_str())))
            },
            None => Err(e),
        },
    }
}

/// A failed write is not the outcome where the service replied: a reply settles the
/// request as if the write had gone through.
pub proof fn law_reply_is_the_outcome(bytes: Seq<u8>, write_error: Seq<char>)
    requires
        reply_read(bytes) is Ok || (reply_read(bytes)->Err_0).announced,
    ensures
        settled(reply_read(bytes), Some(write_error)) == settled(reply_read(bytes), None),
        settled(reply_read(bytes), Some(write_error)) == reply(bytes),
{
}

} // verus!
