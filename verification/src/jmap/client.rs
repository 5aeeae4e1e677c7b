//! The protocol towards a mail server: what is asked, and what the answers mean.

use vstd::prelude::*;
use vstd::utf8::{decode_utf8, encode_utf8, valid_utf8};

use crate::compose::{byte_prefix, take_bytes};
use crate::config::{AccountConfig, AccountConfigV};
use crate::data::{no_items, put, put_all, Dup};
use crate::jmap::types::{mail_account, JmapSession, JmapSessionV};
use crate::json::{
    field, list_of, object_of, put_field, text_field, text_of, texts, texts_of, Json, JsonV,
};
use crate::text::{
    begins, dec, decimal, find, find_chars, find_from, from_utf8, from_utf8_lossy, replace,
    replaced, rfind, rfind_chars, same, slice_text, starts_with, to_chars, utf8_error, utf8_lossy,
};

verus! {

broadcast use vstd::seq_lib::group_seq_properties;

/// A connection to an account.
#[derive(Debug)]
pub struct JmapClient {
    pub username: String,
    pub password: String,
    pub api_url: String,
    pub account_id: String,
    pub download_url: Option<String>,
}

/// The contents of a `JmapClient`.
pub struct JmapClientV {
    pub username: Seq<char>,
    pub password: Seq<char>,
    pub api_url: Seq<char>,
    pub account_id: Seq<char>,
    pub download_url: Option<Seq<char>>,
}

impl DeepView for JmapClient {
    type V = JmapClientV;

    open spec fn deep_view(&self) -> JmapClientV {
        JmapClientV {
            username: self.username@,
            password: self.password@,
            api_url: self.api_url@,
            account_id: self.account_id@,
            download_url: self.download_url.deep_view(),
        }
    }
}

impl Dup for JmapClient {
    fn dup(&self) -> (r: JmapClient) {
        JmapClient {
            username: self.username.dup(),
            password: self.password.dup(),
            api_url: self.api_url.dup(),
            account_id: self.account_id.dup(),
            download_url: self.download_url.dup(),
        }
    }
}

/// What went wrong with a call.
#[derive(Debug)]
pub enum JmapError {
    Http(String),
    Parse(String),
    Api(String),
}

/// The contents of a `JmapError`.
pub enum JmapErrorV {
    Http(Seq<char>),
    Parse(Seq<char>),
    Api(Seq<char>),
}

impl DeepView for JmapError {
    type V = JmapErrorV;

    open spec fn deep_view(&self) -> JmapErrorV {
        match self {
            JmapError::Http(a0) => JmapErrorV::Http(a0@),
            JmapError::Parse(a0) => JmapErrorV::Parse(a0@),
            JmapError::Api(a0) => JmapErrorV::Api(a0@),
        }
    }
}

impl Dup for JmapError {
    fn dup(&self) -> (r: JmapError) {
        match self {
            JmapError::Http(a0) => JmapError::Http(a0.dup()),
            JmapError::Parse(a0) => JmapError::Parse(a0.dup()),
            JmapError::Api(a0) => JmapError::Api(a0.dup()),
        }
    }
}

/// What came of a request: an answer, an answer with an error status, or none.
#[derive(Debug)]
pub enum HttpReply {
    Answer { status: u16, location: Option<String> },
    Refused { status: u16, location: Option<String>, body: String },
    Failed(String),
}

/// The contents of a `HttpReply`.
pub enum HttpReplyV {
    Answer { status: u16, location: Option<Seq<char>> },
    Refused { status: u16, location: Option<Seq<char>>, body: Seq<char> },
    Failed(Seq<char>),
}

impl DeepView for HttpReply {
    type V = HttpReplyV;

    open spec fn deep_view(&self) -> HttpReplyV {
        match self {
            HttpReply::Answer { status, location } => HttpReplyV::Answer {
                status: *status,
                location: location.deep_view(),
            },
            HttpReply::Refused { status, location, body } => HttpReplyV::Refused {
                status: *status,
                location: location.deep_view(),
                body: body@,
            },
            HttpReply::Failed(a0) => HttpReplyV::Failed(a0@),
        }
    }
}

/// A document that is being fetched: the address to ask next, how many requests
/// are left, and whether it is a file.
#[derive(Debug)]
pub struct Fetch {
    pub url: String,
    pub left: u32,
    pub blob: bool,
}

/// The contents of a `Fetch`.
pub struct FetchV {
    pub url: Seq<char>,
    pub left: u32,
    pub blob: bool,
}

impl DeepView for Fetch {
    type V = FetchV;

    open spec fn deep_view(&self) -> FetchV {
        FetchV {
            url: self.url@,
            left: self.left,
            blob: self.blob,
        }
    }
}

/// What comes next: another request, reading the answer, or an error.
#[derive(Debug)]
pub enum FetchStep {
    Again,
    Read,
    Fail(JmapError),
}

/// The contents of a `FetchStep`.
pub enum FetchStepV {
    Again,
    Read,
    Fail(JmapErrorV),
}

impl DeepView for FetchStep {
    type V = FetchStepV;

    open spec fn deep_view(&self) -> FetchStepV {
        match self {
            FetchStep::Again => FetchStepV::Again,
            FetchStep::Read => FetchStepV::Read,
            FetchStep::Fail(a0) => FetchStepV::Fail(a0.deep_view()),
        }
    }
}

/// What came of a change: it was made, it was refused with what the server says
/// of the messages not changed, or the answer is to something else.
#[derive(Debug)]
pub enum SetOutcome {
    Done,
    Refused(Json),
    Unexpected,
}

/// The contents of a `SetOutcome`.
pub enum SetOutcomeV {
    Done,
    Refused(JsonV),
    Unexpected,
}

impl DeepView for SetOutcome {
    type V = SetOutcomeV;

    open spec fn deep_view(&self) -> SetOutcomeV {
        match self {
            SetOutcome::Done => SetOutcomeV::Done,
            SetOutcome::Refused(a0) => SetOutcomeV::Refused(a0.deep_view()),
            SetOutcome::Unexpected => SetOutcomeV::Unexpected,
        }
    }
}

/// What came of a shell command.
#[derive(Debug)]
pub struct CommandOutput {
    pub success: bool,
    pub status: String,
    pub stdout: Vec<u8>,
    pub stderr: Vec<u8>,
}

/// The contents of a `CommandOutput`.
pub struct CommandOutputV {
    pub success: bool,
    pub status: Seq<char>,
    pub stdout: Seq<u8>,
    pub stderr: Seq<u8>,
}

impl DeepView for CommandOutput {
    type V = CommandOutputV;

    open spec fn deep_view(&self) -> CommandOutputV {
        CommandOutputV {
            success: self.success,
            status: self.status@,
            stdout: self.stdout.deep_view(),
            stderr: self.stderr.deep_view(),
        }
    }
}

// ---------------------------------------------------------------------------
// Errors
// ---------------------------------------------------------------------------

/// What an error says.
pub open spec fn error_text(e: JmapErrorV) -> Seq<char> {
    match e {
        JmapErrorV::Http(m) => "HTTP error: "@ + m,
        JmapErrorV::Parse(m) => "Parse error: "@ + m,
        JmapErrorV::Api(m) => "API error: "@ + m,
    }
}

impl JmapError {
    /// What the error says.
    pub fn to_string(&self) -> (r: String)
        ensures
            r@ == error_text(self.deep_view()),
    {
        let mut s = match self {
            JmapError::Http(_) => "HTTP error: ".to_owned(),
            JmapError::Parse(_) => "Parse error: ".to_owned(),
            JmapError::Api(_) => "API error: ".to_owned(),
        };
        match self {
            JmapError::Http(m) => {
                s.append(m.as_str());
            },
            JmapError::Parse(m) => {
                s.append(m.as_str());
            },
            JmapError::Api(m) => {
                s.append(m.as_str());
            },
        }
        s
    }
}

// ---------------------------------------------------------------------------
// Signing in
// ---------------------------------------------------------------------------

/// The character for six bits.
pub open spec fn base64_char(n: int) -> char {
    if n < 26 {
        ('A' as int + n) as char
    } else if n < 52 {
        ('a' as int + n - 26) as char
    } else if n < 62 {
        ('0' as int + n - 52) as char
    } else if n == 62 {
        '+'
    } else {
        '/'
    }
}

/// Bytes as text: each three of them as four characters of six bits each, with
/// equals signs for what is missing of the last three.
pub open spec fn base64_of(b: Seq<u8>) -> Seq<char>
    decreases b.len(),
{
    if b.len() == 0 {
        Seq::empty()
    } else if b.len() == 1 {
        seq![base64_char(b[0] as int / 4), base64_char(b[0] % 4 * 16), '=', '=']
    } else if b.len() == 2 {
        seq![
            base64_char(b[0] as int / 4),
            base64_char(b[0] % 4 * 16 + b[1] / 16),
            base64_char(b[1] % 16 * 4),
            '=',
        ]
    } else {
        seq![
            base64_char(b[0] as int / 4),
            base64_char(b[0] % 4 * 16 + b[1] / 16),
            base64_char(b[1] % 16 * 4 + b[2] / 64),
            base64_char(b[2] as int % 64),
        ] + base64_of(b.subrange(3, b.len() as int))
    }
}

/// `base64::Engine::encode` with `base64::engine::general_purpose::STANDARD`: the
/// bytes of a text in the standard alphabet, with padding.
#[verifier::external_body]
fn base64_encode(s: &str) -> (r: String)
    ensures
        r@ == base64_of(encode_utf8(s@)),
{
    base64::Engine::encode(&base64::engine::general_purpose::STANDARD, s)
}

/// What signs a request: the user and the password.
pub open spec fn auth_text(username: Seq<char>, password: Seq<char>) -> Seq<char> {
    "Basic "@ + base64_of(encode_utf8(username + ":"@ + password))
}

/// What signs a request.
pub fn auth_header(username: &str, password: &str) -> (r: String)
    ensures
        r@ == auth_text(username@, password@),
{
    let mut credentials = username.to_owned();
    credentials.append(":");
    credentials.append(password);
    let mut s = "Basic ".to_owned();
    s.append(base64_encode(credentials.as_str()).as_str());
    s
}

/// A text without the line ends at its end.
pub open spec fn without_line_ends(s: Seq<char>) -> Seq<char>
    decreases s.len(),
{
    if s.len() > 0 && s.last() == '\n' {
        without_line_ends(s.drop_last())
    } else {
        s
    }
}

fn strip_line_ends(s: &str) -> (r: String)
    ensures
        r@ == without_line_ends(s@),
{
    let v = to_chars(s);
    let mut n: usize = v.len();
    assert(v@.subrange(0, n as int) =~= s@);
    while n > 0 && v[n - 1] == '\n'
        invariant
            n <= v@.len(),
            without_line_ends(s@) == without_line_ends(v@.subrange(0, n as int)),
        decreases n,
    {
        assert(v@.subrange(0, n as int).drop_last() =~= v@.subrange(0, n - 1));
        n = n - 1;
    }
    slice_text(&v, 0, n)
}

/// The password that a command printed, or what went wrong.
pub open spec fn password_of(output: Result<CommandOutputV, Seq<char>>) -> Result<
    Seq<char>,
    Seq<char>,
> {
    match output {
        Err(e) => Err("failed to execute password command: "@ + e),
        Ok(o) => if !o.success {
            Err("password command exited with "@ + o.status + ": "@ + utf8_lossy(o.stderr))
        } else if !valid_utf8(o.stdout) {
            Err("password command output is not valid UTF-8: "@ + utf8_error(o.stdout))
        } else {
            Ok(without_line_ends(decode_utf8(o.stdout)))
        },
    }
}

/// The password that a command printed, or what went wrong.
pub fn run_password_command(output: Result<CommandOutput, String>) -> (r: Result<String, String>)
    ensures
        match (r, output) {
            (Ok(p), Ok(o)) => password_of(Ok(o.deep_view())) == Ok::<Seq<char>, Seq<char>>(p@),
            (Err(e), Ok(o)) => password_of(Ok(o.deep_view())) == Err::<Seq<char>, Seq<char>>(e@),
            (Err(e), Err(x)) => password_of(Err(x@)) == Err::<Seq<char>, Seq<char>>(e@),
            (Ok(_), Err(_)) => false,
        },
{
    match output {
        Err(e) => {
            let mut s = "failed to execute password command: ".to_owned();
            s.append(e.as_str());
            Err(s)
        },
        Ok(o) => {
            assert(o.stdout.deep_view() =~= o.stdout@);
            assert(o.stderr.deep_view() =~= o.stderr@);
            if !o.success {
                let mut s = "password command exited with ".to_owned();
                s.append(o.status.as_str());
                s.append(": ");
                s.append(from_utf8_lossy(o.stderr.as_slice()).as_str());
                return Err(s);
            }
            match from_utf8(o.stdout) {
                Ok(p) => Ok(strip_line_ends(p.as_str())),
                Err(e) => {
                    let mut s = "password command output is not valid UTF-8: ".to_owned();
                    s.append(e.as_str());
                    Err(s)
                },
            }
        },
    }
}

/// What is said of a session that cannot be read.
pub open spec fn bad_session(e: Seq<char>, response: Seq<char>) -> JmapErrorV {
    JmapErrorV::Parse(
        "Failed to parse session: "@ + e + ". Response was: "@ + byte_prefix(response, 500),
    )
}

/// What is said of a session that cannot be read.
pub fn session_parse_error(e: &str, response: &str) -> (r: JmapError)
    ensures
        r.deep_view() == bad_session(e@, response@),
{
    let mut s = "Failed to parse session: ".to_owned();
    s.append(e);
    s.append(". Response was: ");
    s.append(take_bytes(response, 500).as_str());
    JmapError::Parse(s)
}

/// The connection to the account of a session that holds the mail, if there is one.
pub open spec fn discovered(
    session: JmapSessionV,
    username: Seq<char>,
    password: Seq<char>,
    response: Seq<char>,
) -> Result<JmapClientV, JmapErrorV> {
    match mail_account(session) {
        Some(account_id) => Ok(
            JmapClientV {
                username,
                password,
                api_url: session.api_url,
                account_id,
                download_url: session.download_url,
            },
        ),
        None => Err(
            JmapErrorV::Api(
                "No mail account found in session response: "@ + byte_prefix(response, 500),
            ),
        ),
    }
}

/// The connection to an account once its session has come, or what went wrong.
pub open spec fn account_connected(
    account: AccountConfigV,
    password: Seq<char>,
    session: Result<(JmapSessionV, Seq<char>), JmapErrorV>,
) -> Result<JmapClientV, Seq<char>> {
    let client = match session {
        Ok((s, response)) => discovered(s, account.username, password, response),
        Err(e) => Err(e),
    };
    match client {
        Ok(c) => Ok(c),
        Err(e) => Err("JMAP discovery error: "@ + error_text(e)),
    }
}

/// The connection to an account once its session has come, or what went wrong. The
/// session comes with the text that it was read from.
pub fn connect_account(
    account: &AccountConfig,
    password: &str,
    session: Result<(JmapSession, String), JmapError>,
) -> (r: Result<JmapClient, String>)
    ensures
        ({
            let sv = match session {
                Ok((s, response)) => Ok((s.deep_view(), response@)),
                Err(e) => Err(e.deep_view()),
            };
            let c = account_connected(account.deep_view(), password@, sv);
            match r {
                Ok(client) => c == Ok::<JmapClientV, Seq<char>>(client.deep_view()),
                Err(e) => c == Err::<JmapClientV, Seq<char>>(e@),
            }
        }),
{
    let client = match session {
        Ok((s, response)) => JmapClient::discover(
            &s,
            account.username.as_str(),
            password,
            response.as_str(),
        ),
        Err(e) => Err(e),
    };
    match client {
        Ok(c) => Ok(c),
        Err(e) => {
            let mut s = "JMAP discovery error: ".to_owned();
            s.append(e.to_string().as_str());
            Err(s)
        },
    }
}

// ---------------------------------------------------------------------------
// Addresses
// ---------------------------------------------------------------------------

/// Where a redirection leads: the location itself if it is an address, else a path
/// on the same host, else a name beside the document.
pub open spec fn redirected(base: Seq<char>, location: Seq<char>) -> Seq<char> {
    if begins(location, "http://"@) || begins(location, "https://"@) {
        location
    } else if begins(location, "/"@) {
        match find(base, "://"@) {
            Some(i) => match find_from(base, "/"@, i + 3) {
                Some(k) => base.subrange(0, k) + location,
                None => base + location,
            },
            None => location,
        }
    } else {
        match rfind(base, "/"@) {
            Some(k) => base.subrange(0, k) + "/"@ + location,
            None => location,
        }
    }
}

/// Where a redirection leads.
pub fn resolve_redirect(base_url: &str, location: &str) -> (r: String)
    ensures
        r@ == redirected(base_url@, location@),
{
    proof {
        reveal_strlit("://");
    }
    if starts_with(location, "http://") || starts_with(location, "https://") {
        return location.to_owned();
    }
    let base = to_chars(base_url);
    let slash = to_chars("/");
    if starts_with(location, "/") {
        let scheme = to_chars("://");
        assert(scheme@.len() == 3 && base.len() <= usize::MAX);
        match find_chars(&base, &scheme, 0) {
            Some(i) => match find_chars(&base, &slash, i + 3) {
                Some(k) => {
                    let mut s = slice_text(&base, 0, k);
                    s.append(location);
                    s
                },
                None => {
                    let mut s = base_url.to_owned();
                    s.append(location);
                    s
                },
            },
            None => location.to_owned(),
        }
    } else {
        match rfind_chars(&base, &slash) {
            Some(k) => {
                let mut s = slice_text(&base, 0, k);
                s.append("/");
                s.append(location);
                s
            },
            None => location.to_owned(),
        }
    }
}

/// Whether a status says that a document is elsewhere.
pub open spec fn is_redirect(status: u16) -> bool {
    300 <= status < 400
}

/// What is fetched next after an answer, and what comes next.
pub open spec fn fetch_step(f: FetchV, reply: HttpReplyV) -> (FetchV, FetchStepV) {
    match reply {
        HttpReplyV::Answer { status, location } => if is_redirect(status) {
            followed(f, status, location)
        } else {
            (f, FetchStepV::Read)
        },
        HttpReplyV::Refused { status, location, body } => if is_redirect(status) {
            followed(f, status, location)
        } else {
            (f, FetchStepV::Fail(JmapErrorV::Http(refusal(f.blob, status, body))))
        },
        HttpReplyV::Failed(e) => (f, FetchStepV::Fail(JmapErrorV::Http(e))),
    }
}

/// What is fetched next after a redirection.
pub open spec fn followed(f: FetchV, status: u16, location: Option<Seq<char>>) -> (
    FetchV,
    FetchStepV,
) {
    match location {
        Some(l) => (
            FetchV {
                url: redirected(f.url, l),
                left: if f.left > 0 {
                    (f.left - 1) as u32
                } else {
                    0
                },
                ..f
            },
            FetchStepV::Again,
        ),
        None => (
            f,
            FetchStepV::Fail(
                JmapErrorV::Http(
                    "Redirect "@ + decimal(status as nat) + " without Location header"@,
                ),
            ),
        ),
    }
}

/// What is said of an answer with an error status.
pub open spec fn refusal(blob: bool, status: u16, body: Seq<char>) -> Seq<char> {
    if blob {
        "HTTP "@ + decimal(status as nat) + " error"@
    } else if status == 401 {
        "Authentication failed (401 Unauthorized)"@
    } else {
        "HTTP "@ + decimal(status as nat) + " error: "@ + (if body.len() == 0 {
            "(empty response)"@
        } else {
            byte_prefix(body, 200)
        })
    }
}

impl Fetch {
    /// A document to be fetched, with at most five requests.
    pub fn new(url: String, blob: bool) -> (r: Fetch)
        ensures
            r.deep_view() == (FetchV { url: url@, left: 5, blob }),
    {
        Fetch { url, left: 5, blob }
    }

    /// The address to ask, or an error once there were too many redirections.
    pub fn next_url(&self) -> (r: Result<String, JmapError>)
        ensures
            match r {
                Ok(url) => self.deep_view().left > 0 && url@ == self.deep_view().url,
                Err(e) => self.deep_view().left == 0 && e.deep_view() == JmapErrorV::Http(
                    "Too many redirects"@,
                ),
            },
    {
        if self.left == 0 {
            Err(JmapError::Http("Too many redirects".to_owned()))
        } else {
            Ok(self.url.clone())
        }
    }

    fn follow(&mut self, status: u16, location: &Option<String>) -> (r: FetchStep)
        ensures
            (final(self).deep_view(), r.deep_view()) == followed(
                old(self).deep_view(),
                status,
                location.deep_view(),
            ),
    {
        match location {
            Some(l) => {
                self.url = resolve_redirect(self.url.as_str(), l.as_str());
                self.left = self.left.saturating_sub(1);
                FetchStep::Again
            },
            None => {
                let mut s = "Redirect ".to_owned();
                s.append(dec(status as u64).as_str());
                s.append(" without Location header");
                FetchStep::Fail(JmapError::Http(s))
            },
        }
    }

    /// Takes an answer.
    pub fn on_reply(&mut self, reply: &HttpReply) -> (r: FetchStep)
        ensures
            (final(self).deep_view(), r.deep_view()) == fetch_step(
                old(self).deep_view(),
                reply.deep_view(),
            ),
    {
        match reply {
            HttpReply::Answer { status, location } => {
                if 300 <= *status && *status < 400 {
                    self.follow(*status, location)
                } else {
                    FetchStep::Read
                }
            },
            HttpReply::Refused { status, location, body } => {
                if 300 <= *status && *status < 400 {
                    return self.follow(*status, location);
                }
                if !self.blob && *status == 401 {
                    return FetchStep::Fail(
                        JmapError::Http("Authentication failed (401 Unauthorized)".to_owned()),
                    );
                }
                let mut s = "HTTP ".to_owned();
                s.append(dec(*status as u64).as_str());
                if self.blob {
                    s.append(" error");
                } else {
                    s.append(" error: ");
                    if body.as_str().is_empty() {
                        s.append("(empty response)");
                    } else {
                        s.append(take_bytes(body.as_str(), 200).as_str());
                    }
                }
                FetchStep::Fail(JmapError::Http(s))
            },
            HttpReply::Failed(e) => FetchStep::Fail(JmapError::Http(e.clone())),
        }
    }
}

/// The text of an answer; an empty one is an error.
pub fn read_document(status: u16, body: String) -> (r: Result<String, JmapError>)
    ensures
        match r {
            Ok(b) => body@.len() > 0 && b@ == body@,
            Err(e) => body@.len() == 0 && e.deep_view() == JmapErrorV::Http(
                "Server returned empty response (status "@ + decimal(status as nat) + ")"@,
            ),
        },
{
    if body.as_str().is_empty() {
        let mut s = "Server returned empty response (status ".to_owned();
        s.append(dec(status as u64).as_str());
        s.append(")");
        Err(JmapError::Http(s))
    } else {
        Ok(body)
    }
}

/// However a server answers, a redirection uses up one of the requests, so that
/// there is an end to them.
pub proof fn law_redirects_end(f: FetchV, reply: HttpReplyV)
    requires
        f.left > 0,
    ensures
        fetch_step(f, reply).1 is Again ==> fetch_step(f, reply).0.left < f.left,
{
}

// ---------------------------------------------------------------------------
// Requests
// ---------------------------------------------------------------------------

/// A request of one method call.
pub open spec fn method_call(method: Seq<char>, args: JsonV) -> JsonV {
    JsonV::Object(
        Seq::empty().push(
            (
                "using"@,
                texts(
                    Seq::empty().push("urn:ietf:params:jmap:core"@).push(
                        "urn:ietf:params:jmap:mail"@,
                    ),
                ),
            ),
        ).push(
            (
                "methodCalls"@,
                JsonV::List(
                    Seq::empty().push(
                        JsonV::List(
                            Seq::empty().push(JsonV::Text(method)).push(args).push(
                                JsonV::Text("0"@),
                            ),
                        ),
                    ),
                ),
            ),
        ),
    )
}

/// A request of one method call.
pub fn make_method_call(method: &str, args: Json) -> (r: Json)
    ensures
        r.deep_view() == method_call(method@, args.deep_view()),
{
    let mut using: Vec<String> = no_items();
    put(&mut using, "urn:ietf:params:jmap:core".to_owned());
    put(&mut using, "urn:ietf:params:jmap:mail".to_owned());
    let mut call: Vec<Json> = no_items();
    put(&mut call, text_of(method));
    put(&mut call, args);
    put(&mut call, text_of("0"));
    let mut calls: Vec<Json> = no_items();
    put(&mut calls, list_of(call));
    let mut v: Vec<(String, Json)> = no_items();
    put_field(&mut v, "using", texts_of(&using));
    put_field(&mut v, "methodCalls", list_of(calls));
    object_of(v)
}

/// An object with one entry.
pub open spec fn single(key: Seq<char>, value: JsonV) -> JsonV {
    JsonV::Object(Seq::empty().push((key, value)))
}

/// An object with one entry.
pub fn make_single(key: &str, value: Json) -> (r: Json)
    ensures
        r.deep_view() == single(key@, value.deep_view()),
{
    let mut v: Vec<(String, Json)> = no_items();
    put_field(&mut v, key, value);
    object_of(v)
}

/// The filter of a query: the mailbox, and a text if one is searched for.
pub open spec fn query_filter(mailbox_id: Seq<char>, search_text: Option<Seq<char>>) -> JsonV {
    let here = single("inMailbox"@, JsonV::Text(mailbox_id));
    match search_text {
        Some(text) => JsonV::Object(
            Seq::empty().push(("operator"@, JsonV::Text("AND"@))).push(
                (
                    "conditions"@,
                    JsonV::List(
                        Seq::empty().push(here).push(single("text"@, JsonV::Text(text))),
                    ),
                ),
            ),
        ),
        None => here,
    }
}

fn make_filter(mailbox_id: &str, search_text: Option<&str>) -> (r: Json)
    ensures
        r.deep_view() == query_filter(
            mailbox_id@,
            match search_text {
                Some(s) => Some(s@),
                None => None,
            },
        ),
{
    let here = make_single("inMailbox", text_of(mailbox_id));
    match search_text {
        Some(text) => {
            let mut conditions: Vec<Json> = no_items();
            put(&mut conditions, here);
            put(&mut conditions, make_single("text", text_of(text)));
            let mut v: Vec<(String, Json)> = no_items();
            put_field(&mut v, "operator", text_of("AND"));
            put_field(&mut v, "conditions", list_of(conditions));
            object_of(v)
        },
        None => here,
    }
}

/// The request for all mailboxes.
pub open spec fn mailboxes_request(c: JmapClientV) -> JsonV {
    method_call(
        "Mailbox/get"@,
        JsonV::Object(
            Seq::empty().push(("accountId"@, JsonV::Text(c.account_id))).push(
                ("ids"@, JsonV::Null),
            ),
        ),
    )
}

/// The request for the ids of messages, the newest first.
pub open spec fn query_request(
    c: JmapClientV,
    mailbox_id: Seq<char>,
    limit: u32,
    position: u32,
    search_text: Option<Seq<char>>,
) -> JsonV {
    method_call(
        "Email/query"@,
        JsonV::Object(
            Seq::empty().push(("accountId"@, JsonV::Text(c.account_id))).push(
                ("filter"@, query_filter(mailbox_id, search_text)),
            ).push(
                ("sort"@, newest_first()),
            ).push(("limit"@, JsonV::UInt(limit as u64))).push(
                ("position"@, JsonV::UInt(position as u64)),
            ),
        ),
    )
}

/// What is asked of messages for a list.
pub open spec fn list_properties() -> Seq<Seq<char>> {
    Seq::<Seq<char>>::empty().push("id"@).push("from"@).push("to"@).push("cc"@).push(
        "subject"@,
    ).push("receivedAt"@).push("preview"@).push("textBody"@).push("bodyValues"@).push(
        "keywords"@,
    ).push("mailboxIds"@).push("attachments"@)
}

/// What is asked of a message for a reply.
pub open spec fn reply_properties() -> Seq<Seq<char>> {
    Seq::<Seq<char>>::empty().push("id"@).push("from"@).push("to"@).push("cc"@).push(
        "replyTo"@,
    ).push("subject"@).push("receivedAt"@).push("sentAt"@).push("textBody"@).push(
        "bodyValues"@,
    ).push("messageId"@).push("references"@)
}

/// What is asked of a message for its raw form.
pub open spec fn raw_properties() -> Seq<Seq<char>> {
    Seq::<Seq<char>>::empty().push("id"@).push("blobId"@)
}

/// The request for messages.
pub open spec fn emails_request(
    c: JmapClientV,
    ids: Seq<Seq<char>>,
    properties: Seq<Seq<char>>,
    with_text: bool,
) -> JsonV {
    let v = Seq::<(Seq<char>, JsonV)>::empty().push(("accountId"@, JsonV::Text(c.account_id))).push(
        ("ids"@, texts(ids)),
    ).push(("properties"@, texts(properties)));
    method_call(
        "Email/get"@,
        JsonV::Object(
            if with_text {
                v.push(("fetchTextBodyValues"@, JsonV::Bool(true)))
            } else {
                v
            },
        ),
    )
}

/// The request for a change of a message.
pub open spec fn change_request(c: JmapClientV, id: Seq<char>, change: JsonV) -> JsonV {
    method_call(
        "Email/set"@,
        JsonV::Object(
            Seq::empty().push(("accountId"@, JsonV::Text(c.account_id))).push(
                ("update"@, single(id, change)),
            ),
        ),
    )
}

/// The conditions of a query: the mailbox, and whatever else is asked for of a text
/// and of the time at which messages came.
pub open spec fn query_conditions(
    mailbox_id: Seq<char>,
    search_text: Option<Seq<char>>,
    after: Option<Seq<char>>,
    before: Option<Seq<char>>,
) -> Seq<JsonV> {
    let a = Seq::<JsonV>::empty().push(single("inMailbox"@, JsonV::Text(mailbox_id)));
    let b = match search_text {
        Some(t) => a.push(single("text"@, JsonV::Text(t))),
        None => a,
    };
    let c = match after {
        Some(t) => b.push(single("after"@, JsonV::Text(t))),
        None => b,
    };
    match before {
        Some(t) => c.push(single("before"@, JsonV::Text(t))),
        None => c,
    }
}

/// The order of a query: the newest first.
pub open spec fn newest_first() -> JsonV {
    JsonV::List(
        Seq::empty().push(
            JsonV::Object(
                Seq::empty().push(("property"@, JsonV::Text("receivedAt"@))).push(
                    ("isAscending"@, JsonV::Bool(false)),
                ),
            ),
        ),
    )
}

/// The request for the ids of messages that meet conditions, the newest first.
pub open spec fn conditions_request(
    c: JmapClientV,
    conditions: Seq<JsonV>,
    limit: u32,
    position: u32,
) -> JsonV {
    method_call(
        "Email/query"@,
        JsonV::Object(
            Seq::empty().push(("accountId"@, JsonV::Text(c.account_id))).push(
                (
                    "filter"@,
                    JsonV::Object(
                        Seq::empty().push(("operator"@, JsonV::Text("AND"@))).push(
                            ("conditions"@, JsonV::List(conditions)),
                        ),
                    ),
                ),
            ).push(("sort"@, newest_first())).push(("limit"@, JsonV::UInt(limit as u64))).push(
                ("position"@, JsonV::UInt(position as u64)),
            ),
        ),
    )
}

/// The request for the ids of all messages of a mailbox, each by itself, the newest
/// first.
pub open spec fn uncollapsed_request(
    c: JmapClientV,
    mailbox_id: Seq<char>,
    limit: u32,
    position: u32,
) -> JsonV {
    method_call(
        "Email/query"@,
        JsonV::Object(
            Seq::empty().push(("accountId"@, JsonV::Text(c.account_id))).push(
                ("filter"@, query_filter(mailbox_id, None)),
            ).push(("sort"@, newest_first())).push(
                ("collapseThreads"@, JsonV::Bool(false)),
            ).push(("limit"@, JsonV::UInt(limit as u64))).push(
                ("position"@, JsonV::UInt(position as u64)),
            ),
        ),
    )
}

/// What is asked of messages for the counts of threads.
pub open spec fn keyword_properties() -> Seq<Seq<char>> {
    Seq::<Seq<char>>::empty().push("id"@).push("threadId"@).push("keywords"@)
}

/// The request for threads.
pub open spec fn threads_request(c: JmapClientV, ids: Seq<Seq<char>>) -> JsonV {
    method_call(
        "Thread/get"@,
        JsonV::Object(
            Seq::empty().push(("accountId"@, JsonV::Text(c.account_id))).push(
                ("ids"@, texts(ids)),
            ),
        ),
    )
}

/// A request that changes things of a kind in one way.
pub open spec fn set_request(
    c: JmapClientV,
    method: Seq<char>,
    way: Seq<char>,
    change: JsonV,
) -> JsonV {
    method_call(
        method,
        JsonV::Object(
            Seq::empty().push(("accountId"@, JsonV::Text(c.account_id))).push((way, change)),
        ),
    )
}

/// The same change for the first `k` messages.
pub open spec fn changes_upto(ids: Seq<Seq<char>>, change: JsonV, k: int) -> Seq<(Seq<char>, JsonV)>
    decreases k,
{
    if k <= 0 {
        Seq::empty()
    } else {
        changes_upto(ids, change, k - 1).push((ids[k - 1], change))
    }
}

/// The change that sets a keyword or takes it away.
pub open spec fn keyword_change(path: Seq<char>, on: bool) -> JsonV {
    single(
        path,
        if on {
            JsonV::Bool(true)
        } else {
            JsonV::Null
        },
    )
}

/// The change that puts a message into one mailbox.
pub open spec fn mailbox_change(mailbox_id: Seq<char>) -> JsonV {
    single("mailboxIds"@, single(mailbox_id, JsonV::Bool(true)))
}

/// The address of a file: the server's pattern with the names filled in.
pub open spec fn blob_url(
    pattern: Seq<char>,
    account_id: Seq<char>,
    blob_id: Seq<char>,
    name: Seq<char>,
    content_type: Seq<char>,
) -> Seq<char> {
    replaced(
        replaced(
            replaced(replaced(pattern, "{accountId}"@, account_id), "{blobId}"@, blob_id),
            "{name}"@,
            name,
        ),
        "{type}"@,
        content_type,
    )
}

fn make_list_properties() -> (r: Vec<String>)
    ensures
        r.deep_view() == list_properties(),
{
    let mut v: Vec<String> = no_items();
    put(&mut v, "id".to_owned());
    put(&mut v, "from".to_owned());
    put(&mut v, "to".to_owned());
    put(&mut v, "cc".to_owned());
    put(&mut v, "subject".to_owned());
    put(&mut v, "receivedAt".to_owned());
    put(&mut v, "preview".to_owned());
    put(&mut v, "textBody".to_owned());
    put(&mut v, "bodyValues".to_owned());
    put(&mut v, "keywords".to_owned());
    put(&mut v, "mailboxIds".to_owned());
    put(&mut v, "attachments".to_owned());
    v
}

fn make_reply_properties() -> (r: Vec<String>)
    ensures
        r.deep_view() == reply_properties(),
{
    let mut v: Vec<String> = no_items();
    put(&mut v, "id".to_owned());
    put(&mut v, "from".to_owned());
    put(&mut v, "to".to_owned());
    put(&mut v, "cc".to_owned());
    put(&mut v, "replyTo".to_owned());
    put(&mut v, "subject".to_owned());
    put(&mut v, "receivedAt".to_owned());
    put(&mut v, "sentAt".to_owned());
    put(&mut v, "textBody".to_owned());
    put(&mut v, "bodyValues".to_owned());
    put(&mut v, "messageId".to_owned());
    put(&mut v, "references".to_owned());
    v
}

fn make_order() -> (r: Json)
    ensures
        r.deep_view() == newest_first(),
{
    let mut order: Vec<(String, Json)> = no_items();
    put_field(&mut order, "property", text_of("receivedAt"));
    put_field(&mut order, "isAscending", Json::Bool(false));
    let mut sort: Vec<Json> = no_items();
    put(&mut sort, object_of(order));
    list_of(sort)
}

fn only(id: &str) -> (r: Vec<String>)
    ensures
        r.deep_view() == Seq::<Seq<char>>::empty().push(id@),
{
    let mut v: Vec<String> = no_items();
    put(&mut v, id.to_owned());
    v
}

impl JmapClient {
    /// The connection to the account of a session that holds the mail. `response`
    /// is the text that the session was read from.
    pub fn discover(
        session: &JmapSession,
        username: &str,
        password: &str,
        response: &str,
    ) -> (r: Result<JmapClient, JmapError>)
        ensures
            ({
                let d = discovered(session.deep_view(), username@, password@, response@);
                match r {
                    Ok(c) => d == Ok::<JmapClientV, JmapErrorV>(c.deep_view()),
                    Err(e) => d == Err::<JmapClientV, JmapErrorV>(e.deep_view()),
                }
            }),
    {
        match session.mail_account_id() {
            Some(id) => Ok(
                JmapClient {
                    username: username.to_owned(),
                    password: password.to_owned(),
                    api_url: session.api_url.clone(),
                    account_id: id.to_owned(),
                    download_url: session.download_url.dup(),
                },
            ),
            None => {
                let mut s = "No mail account found in session response: ".to_owned();
                s.append(take_bytes(response, 500).as_str());
                Err(JmapError::Api(s))
            },
        }
    }

    /// The account that holds the mail.
    pub fn account_id(&self) -> (r: &str)
        ensures
            r@ == self.deep_view().account_id,
    {
        self.account_id.as_str()
    }

    /// What signs the connection's requests.
    pub fn authorization(&self) -> (r: String)
        ensures
            r@ == auth_text(self.deep_view().username, self.deep_view().password),
    {
        auth_header(self.username.as_str(), self.password.as_str())
    }

    fn arguments(&self) -> (r: Vec<(String, Json)>)
        ensures
            r.deep_view() == Seq::<(Seq<char>, JsonV)>::empty().push(
                ("accountId"@, JsonV::Text(self.deep_view().account_id)),
            ),
    {
        let mut v: Vec<(String, Json)> = no_items();
        put_field(&mut v, "accountId", text_of(self.account_id.as_str()));
        v
    }

    /// The request for all mailboxes.
    pub fn get_mailboxes(&self) -> (r: Json)
        ensures
            r.deep_view() == mailboxes_request(self.deep_view()),
    {
        let mut v = self.arguments();
        put_field(&mut v, "ids", Json::Null);
        make_method_call("Mailbox/get", object_of(v))
    }

    /// The request for the ids of messages.
    pub fn query_emails(
        &self,
        mailbox_id: &str,
        limit: u32,
        position: u32,
        search_text: Option<&str>,
    ) -> (r: Json)
        ensures
            r.deep_view() == query_request(
                self.deep_view(),
                mailbox_id@,
                limit,
                position,
                match search_text {
                    Some(s) => Some(s@),
                    None => None,
                },
            ),
    {
        let mut v = self.arguments();
        put_field(&mut v, "filter", make_filter(mailbox_id, search_text));
        put_field(&mut v, "sort", make_order());
        put_field(&mut v, "limit", Json::UInt(limit as u64));
        put_field(&mut v, "position", Json::UInt(position as u64));
        make_method_call("Email/query", object_of(v))
    }

    fn ask_emails(&self, ids: &Vec<String>, properties: &Vec<String>, with_text: bool) -> (r: Json)
        ensures
            r.deep_view() == emails_request(
                self.deep_view(),
                ids.deep_view(),
                properties.deep_view(),
                with_text,
            ),
    {
        let mut v = self.arguments();
        put_field(&mut v, "ids", texts_of(ids));
        put_field(&mut v, "properties", texts_of(properties));
        if with_text {
            put_field(&mut v, "fetchTextBodyValues", Json::Bool(true));
        }
        make_method_call("Email/get", object_of(v))
    }

    /// The request for messages of a list; nothing if none is wanted.
    pub fn get_emails(&self, ids: &Vec<String>) -> (r: Option<Json>)
        ensures
            r.deep_view() == (if ids.deep_view().len() == 0 {
                None
            } else {
                Some(emails_request(self.deep_view(), ids.deep_view(), list_properties(), true))
            }),
    {
        if ids.len() == 0 {
            None
        } else {
            Some(self.ask_emails(ids, &make_list_properties(), true))
        }
    }

    /// The request for one message.
    pub fn get_email(&self, id: &str) -> (r: Json)
        ensures
            r.deep_view() == emails_request(
                self.deep_view(),
                Seq::<Seq<char>>::empty().push(id@),
                list_properties(),
                true,
            ),
    {
        self.ask_emails(&only(id), &make_list_properties(), true)
    }

    /// The request for a message with what a reply needs.
    pub fn get_email_for_reply(&self, id: &str) -> (r: Json)
        ensures
            r.deep_view() == emails_request(
                self.deep_view(),
                Seq::<Seq<char>>::empty().push(id@),
                reply_properties(),
                true,
            ),
    {
        self.ask_emails(&only(id), &make_reply_properties(), true)
    }

    /// The request for the file that a message is kept in.
    pub fn get_email_raw(&self, id: &str) -> (r: Json)
        ensures
            r.deep_view() == emails_request(
                self.deep_view(),
                Seq::<Seq<char>>::empty().push(id@),
                raw_properties(),
                false,
            ),
    {
        let mut properties: Vec<String> = no_items();
        put(&mut properties, "id".to_owned());
        put(&mut properties, "blobId".to_owned());
        self.ask_emails(&only(id), &properties, false)
    }

    fn change(&self, id: &str, change: Json) -> (r: Json)
        ensures
            r.deep_view() == change_request(self.deep_view(), id@, change.deep_view()),
    {
        let mut v = self.arguments();
        put_field(&mut v, "update", make_single(id, change));
        make_method_call("Email/set", object_of(v))
    }

    /// The request that marks a message as read.
    pub fn mark_email_read(&self, id: &str) -> (r: Json)
        ensures
            r.deep_view() == change_request(
                self.deep_view(),
                id@,
                keyword_change("keywords/$seen"@, true),
            ),
    {
        self.change(id, make_single("keywords/$seen", Json::Bool(true)))
    }

    /// The request that marks a message as unread.
    pub fn mark_email_unread(&self, id: &str) -> (r: Json)
        ensures
            r.deep_view() == change_request(
                self.deep_view(),
                id@,
                keyword_change("keywords/$seen"@, false),
            ),
    {
        self.change(id, make_single("keywords/$seen", Json::Null))
    }

    /// The request that flags a message or takes the flag away.
    pub fn set_email_flagged(&self, id: &str, flagged: bool) -> (r: Json)
        ensures
            r.deep_view() == change_request(
                self.deep_view(),
                id@,
                keyword_change("keywords/$flagged"@, flagged),
            ),
    {
        self.change(
            id,
            make_single(
                "keywords/$flagged",
                if flagged {
                    Json::Bool(true)
                } else {
                    Json::Null
                },
            ),
        )
    }

    /// The request that moves a message.
    pub fn move_email(&self, id: &str, to_mailbox_id: &str) -> (r: Json)
        ensures
            r.deep_view() == change_request(self.deep_view(), id@, mailbox_change(to_mailbox_id@)),
    {
        self.change(
            id,
            make_single("mailboxIds", make_single(to_mailbox_id, Json::Bool(true))),
        )
    }

    /// The request for the ids of messages that came within a span of time.
    pub fn query_emails_between(
        &self,
        mailbox_id: &str,
        limit: u32,
        position: u32,
        search_text: &Option<String>,
        after: &Option<String>,
        before: &Option<String>,
    ) -> (r: Json)
        ensures
            r.deep_view() == conditions_request(
                self.deep_view(),
                query_conditions(
                    mailbox_id@,
                    search_text.deep_view(),
                    after.deep_view(),
                    before.deep_view(),
                ),
                limit,
                position,
            ),
    {
        let mut conditions: Vec<Json> = no_items();
        put(&mut conditions, make_single("inMailbox", text_of(mailbox_id)));
        match search_text {
            Some(t) => put(&mut conditions, make_single("text", text_of(t.as_str()))),
            None => {},
        }
        match after {
            Some(t) => put(&mut conditions, make_single("after", text_of(t.as_str()))),
            None => {},
        }
        match before {
            Some(t) => put(&mut conditions, make_single("before", text_of(t.as_str()))),
            None => {},
        }
        let mut filter: Vec<(String, Json)> = no_items();
        put_field(&mut filter, "operator", text_of("AND"));
        put_field(&mut filter, "conditions", list_of(conditions));
        let mut v = self.arguments();
        put_field(&mut v, "filter", object_of(filter));
        put_field(&mut v, "sort", make_order());
        put_field(&mut v, "limit", Json::UInt(limit as u64));
        put_field(&mut v, "position", Json::UInt(position as u64));
        make_method_call("Email/query", object_of(v))
    }

    /// The request for the ids of all messages of a mailbox, each by itself.
    pub fn query_emails_uncollapsed(&self, mailbox_id: &str, limit: u32, position: u32) -> (r: Json)
        ensures
            r.deep_view() == uncollapsed_request(self.deep_view(), mailbox_id@, limit, position),
    {
        let mut v = self.arguments();
        put_field(&mut v, "filter", make_filter(mailbox_id, None));
        put_field(&mut v, "sort", make_order());
        put_field(&mut v, "collapseThreads", Json::Bool(false));
        put_field(&mut v, "limit", Json::UInt(limit as u64));
        put_field(&mut v, "position", Json::UInt(position as u64));
        make_method_call("Email/query", object_of(v))
    }

    /// The request for messages of a list with further properties; nothing if none is
    /// wanted.
    pub fn get_emails_with_extra_properties(&self, ids: &Vec<String>, extra: &Vec<String>) -> (r:
        Option<Json>)
        ensures
            r.deep_view() == (if ids.deep_view().len() == 0 {
                None
            } else {
                Some(
                    emails_request(
                        self.deep_view(),
                        ids.deep_view(),
                        list_properties() + extra.deep_view(),
                        true,
                    ),
                )
            }),
    {
        if ids.len() == 0 {
            return None;
        }
        let mut properties = make_list_properties();
        put_all(&mut properties, extra.dup());
        Some(self.ask_emails(ids, &properties, true))
    }

    /// The request for the keywords of messages.
    pub fn get_email_keywords(&self, ids: &Vec<String>) -> (r: Json)
        ensures
            r.deep_view() == emails_request(
                self.deep_view(),
                ids.deep_view(),
                keyword_properties(),
                false,
            ),
    {
        let mut properties: Vec<String> = no_items();
        put(&mut properties, "id".to_owned());
        put(&mut properties, "threadId".to_owned());
        put(&mut properties, "keywords".to_owned());
        self.ask_emails(ids, &properties, false)
    }

    /// The request for threads.
    pub fn get_threads(&self, ids: &Vec<String>) -> (r: Json)
        ensures
            r.deep_view() == threads_request(self.deep_view(), ids.deep_view()),
    {
        let mut v = self.arguments();
        put_field(&mut v, "ids", texts_of(ids));
        make_method_call("Thread/get", object_of(v))
    }

    fn set(&self, method: &str, way: &str, change: Json) -> (r: Json)
        ensures
            r.deep_view() == set_request(self.deep_view(), method@, way@, change.deep_view()),
    {
        let mut v = self.arguments();
        put_field(&mut v, way, change);
        make_method_call(method, object_of(v))
    }

    /// The request that makes a mailbox.
    pub fn create_mailbox(&self, name: &str) -> (r: Json)
        ensures
            r.deep_view() == set_request(
                self.deep_view(),
                "Mailbox/set"@,
                "create"@,
                single("new"@, single("name"@, JsonV::Text(name@))),
            ),
    {
        self.set("Mailbox/set", "create", make_single("new", make_single("name", text_of(name))))
    }

    /// The request that removes a mailbox.
    pub fn delete_mailbox(&self, id: &str) -> (r: Json)
        ensures
            r.deep_view() == set_request(
                self.deep_view(),
                "Mailbox/set"@,
                "destroy"@,
                texts(Seq::<Seq<char>>::empty().push(id@)),
            ),
    {
        self.set("Mailbox/set", "destroy", texts_of(&only(id)))
    }

    /// The request that destroys messages.
    pub fn destroy_emails(&self, ids: &Vec<String>) -> (r: Json)
        ensures
            r.deep_view() == set_request(
                self.deep_view(),
                "Email/set"@,
                "destroy"@,
                texts(ids.deep_view()),
            ),
    {
        self.set("Email/set", "destroy", texts_of(ids))
    }

    /// The request that marks messages as read.
    pub fn mark_emails_read(&self, ids: &Vec<String>) -> (r: Json)
        ensures
            r.deep_view() == set_request(
                self.deep_view(),
                "Email/set"@,
                "update"@,
                JsonV::Object(
                    changes_upto(
                        ids.deep_view(),
                        keyword_change("keywords/$seen"@, true),
                        ids.deep_view().len() as int,
                    ),
                ),
            ),
    {
        let ghost iv = ids.deep_view();
        let mut changes: Vec<(String, Json)> = no_items();
        let mut i: usize = 0;
        while i < ids.len()
            invariant
                i <= ids@.len(),
                iv == ids.deep_view(),
                changes.deep_view() == changes_upto(
                    iv,
                    keyword_change("keywords/$seen"@, true),
                    i as int,
                ),
            decreases ids@.len() - i,
        {
            assert(iv[i as int] == ids@[i as int]@);
            put_field(
                &mut changes,
                ids[i].as_str(),
                make_single("keywords/$seen", Json::Bool(true)),
            );
            i = i + 1;
        }
        self.set("Email/set", "update", object_of(changes))
    }

    /// The address of a file, if the server gives files out.
    pub fn download_blob(&self, blob_id: &str, name: &str, content_type: &str) -> (r: Result<
        String,
        JmapError,
    >)
        ensures
            match (r, self.deep_view().download_url) {
                (Ok(url), Some(pattern)) => url@ == blob_url(
                    pattern,
                    self.deep_view().account_id,
                    blob_id@,
                    name@,
                    content_type@,
                ),
                (Err(e), None) => e.deep_view() == JmapErrorV::Api("No download URL available"@),
                _ => false,
            },
    {
        proof {
            reveal_strlit("{accountId}");
            reveal_strlit("{blobId}");
            reveal_strlit("{name}");
            reveal_strlit("{type}");
        }
        match &self.download_url {
            Some(pattern) => {
                let a = replace(pattern.as_str(), "{accountId}", self.account_id.as_str());
                let b = replace(a.as_str(), "{blobId}", blob_id);
                let c = replace(b.as_str(), "{name}", name);
                Ok(replace(c.as_str(), "{type}", content_type))
            },
            None => Err(JmapError::Api("No download URL available".to_owned())),
        }
    }
}

// ---------------------------------------------------------------------------
// Answers
// ---------------------------------------------------------------------------

/// The first answer, if it is that of a method.
pub open spec fn answer_to(replies: Seq<(Seq<char>, JsonV)>, method: Seq<char>) -> Option<JsonV> {
    if replies.len() > 0 && replies[0].0 == method {
        Some(replies[0].1)
    } else {
        None
    }
}

/// The first answer, which has to be that of a method.
pub fn first_answer<'a>(replies: &'a Vec<(String, Json)>, method: &str) -> (r: Result<
    &'a Json,
    JmapError,
>)
    ensures
        match r {
            Ok(j) => answer_to(replies.deep_view(), method@) == Some(j.deep_view()),
            Err(e) => answer_to(replies.deep_view(), method@) is None && e.deep_view()
                == JmapErrorV::Api("Unexpected response"@),
        },
{
    let ghost rv = replies.deep_view();
    if replies.len() > 0 {
        assert(rv[0] == (replies@[0].0@, replies@[0].1.deep_view()));
        if same(replies[0].0.as_str(), method) {
            return Ok(&replies[0].1);
        }
    }
    Err(JmapError::Api("Unexpected response".to_owned()))
}

/// What came of the change of a message.
pub open spec fn change_outcome(replies: Seq<(Seq<char>, JsonV)>, id: Seq<char>) -> SetOutcomeV {
    match answer_to(replies, "Email/set"@) {
        Some(j) => match field(j, "notUpdated"@) {
            Some(not_updated) => if field(not_updated, id) is Some {
                SetOutcomeV::Refused(not_updated)
            } else {
                SetOutcomeV::Done
            },
            None => SetOutcomeV::Done,
        },
        None => SetOutcomeV::Unexpected,
    }
}

/// What came of the change of a message.
pub fn set_outcome(replies: &Vec<(String, Json)>, id: &str) -> (r: SetOutcome)
    ensures
        r.deep_view() == change_outcome(replies.deep_view(), id@),
{
    match first_answer(replies, "Email/set") {
        Ok(j) => match j.get("notUpdated") {
            Some(not_updated) => {
                if not_updated.get(id).is_some() {
                    SetOutcome::Refused(not_updated.dup())
                } else {
                    SetOutcome::Done
                }
            },
            None => SetOutcome::Done,
        },
        Err(_) => SetOutcome::Unexpected,
    }
}

/// What came of a change as a result. `what` says what was tried, and `shown` is
/// how the server's refusal is shown.
pub fn set_result(outcome: &SetOutcome, what: &str, shown: &str) -> (r: Result<(), JmapError>)
    ensures
        match outcome.deep_view() {
            SetOutcomeV::Done => r is Ok,
            SetOutcomeV::Refused(_) => match r {
                Ok(_) => false,
                Err(e) => e.deep_view() == JmapErrorV::Api(
                    "Failed to "@ + what@ + ": "@ + shown@,
                ),
            },
            SetOutcomeV::Unexpected => match r {
                Ok(_) => false,
                Err(e) => e.deep_view() == JmapErrorV::Api("Unexpected response for Email/set"@),
            },
        },
{
    match outcome {
        SetOutcome::Done => Ok(()),
        SetOutcome::Refused(_) => {
            let mut s = "Failed to ".to_owned();
            s.append(what);
            s.append(": ");
            s.append(shown);
            Err(JmapError::Api(s))
        },
        SetOutcome::Unexpected => Err(
            JmapError::Api("Unexpected response for Email/set".to_owned()),
        ),
    }
}

/// Why a server did not do something for an id: the entry for the id under a key of
/// the answer.
pub open spec fn reason_in(
    replies: Seq<(Seq<char>, JsonV)>,
    method: Seq<char>,
    key: Seq<char>,
    id: Seq<char>,
) -> Option<JsonV> {
    match answer_to(replies, method) {
        Some(j) => match field(j, key) {
            Some(refused) => field(refused, id),
            None => None,
        },
        None => None,
    }
}

/// Why a server did not do something for an id, if it answered and did not.
pub fn find_refusal(replies: &Vec<(String, Json)>, method: &str, key: &str, id: &str) -> (r: Result<
    Option<Json>,
    JmapError,
>)
    ensures
        match r {
            Ok(why) => answer_to(replies.deep_view(), method@) is Some && why.deep_view()
                == reason_in(replies.deep_view(), method@, key@, id@),
            Err(e) => answer_to(replies.deep_view(), method@) is None && e.deep_view()
                == JmapErrorV::Api("Unexpected response"@),
        },
{
    match first_answer(replies, method) {
        Ok(j) => match j.get(key) {
            Some(refused) => match refused.get(id) {
                Some(why) => Ok(Some(why.dup())),
                None => Ok(None),
            },
            None => Ok(None),
        },
        Err(e) => Err(e),
    }
}

/// The file that the first message of an answer is kept in.
pub open spec fn blob_in(replies: Seq<(Seq<char>, JsonV)>) -> Option<Seq<char>> {
    match answer_to(replies, "Email/get"@) {
        Some(j) => match field(j, "list"@) {
            Some(JsonV::List(list)) => if list.len() > 0 {
                text_field(list[0], "blobId"@)
            } else {
                None
            },
            _ => None,
        },
        None => None,
    }
}

/// The file that the first message of an answer is kept in.
pub fn blob_id_in(replies: &Vec<(String, Json)>) -> (r: Option<String>)
    ensures
        r.deep_view() == blob_in(replies.deep_view()),
{
    match first_answer(replies, "Email/get") {
        Ok(j) => match j.get("list") {
            Some(Json::List(list)) => {
                if list.len() > 0 {
                    list[0].get_text("blobId")
                } else {
                    None
                }
            },
            _ => None,
        },
        Err(_) => None,
    }
}

/// A change counts as made only when the server answers to the change and does not
/// list the message among those that it did not change.
pub proof fn law_refused_change_is_reported(replies: Seq<(Seq<char>, JsonV)>, id: Seq<char>)
    ensures
        change_outcome(replies, id) is Done <==> (replies.len() > 0 && replies[0].0 == "Email/set"@
            && !(field(replies[0].1, "notUpdated"@) is Some && field(
            field(replies[0].1, "notUpdated"@)->0,
            id,
        ) is Some)),
{
}

} // verus!
