//! A message, or the messages of a thread one after the other.

use vstd::prelude::*;

use crate::backend::queue::{next_generated_op_id, next_id};
use crate::backend::{
    BackendCommand, BackendCommandV, BackendResponse, BackendResponseV, EmailMutationAction,
};
use crate::cache::with_keyword;
use crate::compose::{
    body_source, build_compose_draft, build_forward_draft, build_reply_draft, compose_draft,
    find_body, forward_draft, html_like, is_html_part, looks_like_html, reply_draft, typed_html,
};
use crate::data::{
    at, law_num_put_then_take, lemma_numbers_stay_distinct, lemma_taken_stay_distinct, lookup,
    no_items, num_lookup, num_put, num_take, num_with, num_without, numbers_distinct, put,
    result_view, with_entry, Dup, StrMap,
};
use crate::jmap::types::{
    BodyPart, BodyPartV, Email, EmailAddress, EmailAddressV, EmailV, Mailbox, MailboxV,
};
use crate::rules::{join_addresses, resolve_mailbox_id, resolved_mailbox, shown_addresses};
use crate::text::{dec, decimal, lines, lines_of, same};
use crate::tui::html::{html_to_terminal, terminal_text};
use crate::tui::input::Key;
use crate::tui::layout::{format_size, repeat, repeated, shown_size, wrap_line, wrapped};
use crate::tui::screen::{
    cleared, clipped, in_status, moved, plain, row_header, row_text, selected, status_line, written,
    Terminal, TerminalV,
};
use crate::tui::views::help::{help_view, HelpView};
use crate::tui::views::{
    action_name, closed_channel, count_items, cursor_down, cursor_up, failure, keywords_true,
    lemma_mark_and_back, list_subject, mark_email, name_of_action, page_rows, pager_key, plus_one,
    rows_below, same_email, scroll_pager, sent_to, shown_items, status_with, step_down, step_up,
    subject_in_list, text2, text3, window_start, window_start_of, with_error, with_status, AnyView,
    AnyViewV, Outbox, OutboxV, ViewAction, ViewActionV,
};

verus! {

broadcast use vstd::seq_lib::group_seq_properties;

/// What a line of a shown message is.
#[derive(Debug, Clone, Copy, PartialEq, Eq, Structural)]
pub enum LineKind {
    Header,
    Separator,
    Body,
}

impl DeepView for LineKind {
    type V = LineKind;

    open spec fn deep_view(&self) -> LineKind {
        *self
    }
}

impl Dup for LineKind {
    fn dup(&self) -> (r: LineKind) {
        *self
    }
}

/// A change to the shown message whose outcome is not known, with what undoes
/// it.
#[derive(Debug)]
pub enum EmailWriteOp {
    Flag { old_flagged: bool },
    Seen { old_seen: bool },
}

/// The contents of an `EmailWriteOp`.
pub enum EmailWriteOpV {
    Flag { old_flagged: bool },
    Seen { old_seen: bool },
}

impl DeepView for EmailWriteOp {
    type V = EmailWriteOpV;

    open spec fn deep_view(&self) -> EmailWriteOpV {
        match self {
            EmailWriteOp::Flag { old_flagged } => EmailWriteOpV::Flag {
                old_flagged: *old_flagged,
            },
            EmailWriteOp::Seen { old_seen } => EmailWriteOpV::Seen {
                old_seen: *old_seen,
            },
        }
    }
}

impl Dup for EmailWriteOp {
    fn dup(&self) -> (r: EmailWriteOp) {
        match self {
            EmailWriteOp::Flag { old_flagged } => EmailWriteOp::Flag {
                old_flagged: *old_flagged,
            },
            EmailWriteOp::Seen { old_seen } => EmailWriteOp::Seen {
                old_seen: *old_seen,
            },
        }
    }
}

/// Lines, and what each of them is.
#[derive(Debug)]
pub struct Page {
    pub lines: Vec<String>,
    pub kinds: Vec<LineKind>,
}

/// The contents of a `Page`.
pub struct PageV {
    pub lines: Seq<Seq<char>>,
    pub kinds: Seq<LineKind>,
}

impl DeepView for Page {
    type V = PageV;

    open spec fn deep_view(&self) -> PageV {
        PageV {
            lines: self.lines.deep_view(),
            kinds: self.kinds.deep_view(),
        }
    }
}

/// A message, or the messages of a thread one after the other.
#[derive(Debug)]
pub struct EmailView {
    pub reply_from_address: String,
    pub can_expire_now: bool,
    pub email_id: String,
    pub email: Option<Email>,
    pub lines: Vec<String>,
    pub line_kinds: Vec<LineKind>,
    pub scroll: usize,
    pub loading: bool,
    pub error: Option<String>,
    pub pending_reply_all: Option<bool>,
    pub pending_forward: bool,
    pub pending_compose: Option<String>,
    pub pending_open: Option<(String, String)>,
    pub status_message: Option<String>,
    pub next_write_op_id: u64,
    pub pending_write_ops: Vec<(u64, EmailWriteOp)>,
    pub attachment_picking: bool,
    pub show_all_headers: bool,
    pub raw_headers_cache: StrMap<String>,
    pub raw_headers_loading: bool,
    pub thread_id: Option<String>,
    pub thread_emails: Vec<Email>,
    pub mailboxes: Vec<Mailbox>,
    pub archive_folder: String,
    pub deleted_folder: String,
    pub move_mode: bool,
    pub move_cursor: usize,
    pub prefer_html: bool,
}

/// The contents of an `EmailView`.
pub struct EmailViewV {
    pub reply_from_address: Seq<char>,
    pub can_expire_now: bool,
    pub email_id: Seq<char>,
    pub email: Option<EmailV>,
    pub lines: Seq<Seq<char>>,
    pub line_kinds: Seq<LineKind>,
    pub scroll: usize,
    pub loading: bool,
    pub error: Option<Seq<char>>,
    pub pending_reply_all: Option<bool>,
    pub pending_forward: bool,
    pub pending_compose: Option<Seq<char>>,
    pub pending_open: Option<(Seq<char>, Seq<char>)>,
    pub status_message: Option<Seq<char>>,
    pub next_write_op_id: u64,
    pub pending_write_ops: Seq<(u64, EmailWriteOpV)>,
    pub attachment_picking: bool,
    pub show_all_headers: bool,
    pub raw_headers_cache: Seq<(Seq<char>, Seq<char>)>,
    pub raw_headers_loading: bool,
    pub thread_id: Option<Seq<char>>,
    pub thread_emails: Seq<EmailV>,
    pub mailboxes: Seq<MailboxV>,
    pub archive_folder: Seq<char>,
    pub deleted_folder: Seq<char>,
    pub move_mode: bool,
    pub move_cursor: usize,
    pub prefer_html: bool,
}

impl DeepView for EmailView {
    type V = EmailViewV;

    open spec fn deep_view(&self) -> EmailViewV {
        EmailViewV {
            reply_from_address: self.reply_from_address@,
            can_expire_now: self.can_expire_now,
            email_id: self.email_id@,
            email: self.email.deep_view(),
            lines: self.lines.deep_view(),
            line_kinds: self.line_kinds.deep_view(),
            scroll: self.scroll,
            loading: self.loading,
            error: self.error.deep_view(),
            pending_reply_all: self.pending_reply_all.deep_view(),
            pending_forward: self.pending_forward,
            pending_compose: self.pending_compose.deep_view(),
            pending_open: self.pending_open.deep_view(),
            status_message: self.status_message.deep_view(),
            next_write_op_id: self.next_write_op_id,
            pending_write_ops: self.pending_write_ops.deep_view(),
            attachment_picking: self.attachment_picking,
            show_all_headers: self.show_all_headers,
            raw_headers_cache: self.raw_headers_cache.deep_view(),
            raw_headers_loading: self.raw_headers_loading,
            thread_id: self.thread_id.deep_view(),
            thread_emails: self.thread_emails.deep_view(),
            mailboxes: self.mailboxes.deep_view(),
            archive_folder: self.archive_folder@,
            deleted_folder: self.deleted_folder@,
            move_mode: self.move_mode,
            move_cursor: self.move_cursor,
            prefer_html: self.prefer_html,
        }
    }
}

// ---------------------------------------------------------------------------
// The lines of a message
// ---------------------------------------------------------------------------

/// The page after a line.
pub open spec fn with_line(p: PageV, kind: LineKind, text: Seq<char>) -> PageV {
    PageV { lines: p.lines.push(text), kinds: p.kinds.push(kind) }
}

/// The page after the first `k` of some lines.
pub open spec fn with_lines(p: PageV, kind: LineKind, texts: Seq<Seq<char>>, k: int) -> PageV
    decreases k,
{
    if k <= 0 {
        p
    } else {
        with_line(with_lines(p, kind, texts, k - 1), kind, texts[k - 1])
    }
}

/// A page without lines.
pub open spec fn empty_page() -> PageV {
    PageV { lines: Seq::empty(), kinds: Seq::empty() }
}

impl Page {
    fn empty() -> (r: Page)
        ensures
            r.deep_view() == empty_page(),
    {
        let lines: Vec<String> = no_items();
        let kinds: Vec<LineKind> = no_items();
        Page { lines, kinds }
    }

    fn line(&mut self, kind: LineKind, text: String)
        ensures
            final(self).deep_view() == with_line(old(self).deep_view(), kind, text@),
    {
        put(&mut self.lines, text);
        put(&mut self.kinds, kind);
    }

    fn text(&mut self, kind: LineKind, text: &str)
        ensures
            final(self).deep_view() == with_lines(
                old(self).deep_view(),
                kind,
                lines_of(text@),
                lines_of(text@).len() as int,
            ),
    {
        let ghost start = self.deep_view();
        let texts = lines(text);
        let ghost tv = texts.deep_view();
        let mut i: usize = 0;
        while i < texts.len()
            invariant
                i <= texts@.len(),
                tv == texts.deep_view(),
                self.deep_view() == with_lines(start, kind, tv, i as int),
            decreases texts@.len() - i,
        {
            let t = at(texts.as_slice(), i).clone();
            self.line(kind, t);
            i = i + 1;
        }
    }
}

/// The page after an address line, if there are addresses.
pub open spec fn with_addresses(
    p: PageV,
    label: Seq<char>,
    addrs: Option<Seq<EmailAddressV>>,
    even_empty: bool,
) -> PageV {
    match addrs {
        Some(list) => if even_empty || list.len() > 0 {
            with_line(p, LineKind::Header, label + shown_addresses(list))
        } else {
            p
        },
        None => p,
    }
}

/// The page after the headers of a message: the raw ones where they are at hand,
/// else the usual ones.
pub open spec fn with_headers(p: PageV, e: EmailV, raw: Option<Seq<char>>) -> PageV {
    match raw {
        Some(text) => with_lines(
            p,
            LineKind::Header,
            lines_of(text),
            lines_of(text).len() as int,
        ),
        None => {
            let a = with_addresses(p, "From: "@, e.from, true);
            let b = with_addresses(a, "To: "@, e.to, true);
            let c = with_addresses(b, "Cc: "@, e.cc, false);
            let d = match e.received_at {
                Some(date) => with_line(c, LineKind::Header, "Date: "@ + date),
                None => c,
            };
            with_line(d, LineKind::Header, "Subject: "@ + list_subject(e))
        },
    }
}

fn put_addresses(p: &mut Page, label: &str, addrs: &Option<Vec<EmailAddress>>, even_empty: bool)
    ensures
        final(p).deep_view() == with_addresses(
            old(p).deep_view(),
            label@,
            addrs.deep_view(),
            even_empty,
        ),
{
    match addrs {
        Some(list) => {
            if even_empty || list.len() > 0 {
                p.line(LineKind::Header, text2(label, join_addresses(list).as_str()));
            }
        },
        None => {},
    }
}

fn render_headers(email: &Email, raw_headers: Option<&String>, p: &mut Page)
    ensures
        final(p).deep_view() == with_headers(
            old(p).deep_view(),
            email.deep_view(),
            match raw_headers {
                Some(s) => Some(s@),
                None => None,
            },
        ),
{
    match raw_headers {
        Some(raw) => {
            p.text(LineKind::Header, raw.as_str());
        },
        None => {
            put_addresses(p, "From: ", &email.from, true);
            put_addresses(p, "To: ", &email.to, true);
            put_addresses(p, "Cc: ", &email.cc, false);
            match &email.received_at {
                Some(date) => {
                    p.line(LineKind::Header, text2("Date: ", date.as_str()));
                },
                None => {},
            }
            p.line(LineKind::Header, text2("Subject: ", subject_in_list(email).as_str()));
        },
    }
}

/// The line of an attachment.
pub open spec fn attachment_line(a: BodyPartV, number: int) -> Seq<char> {
    "  ["@ + decimal(number as nat) + "] "@ + (match a.name {
        Some(n) => n,
        None => "unnamed"@,
    }) + " ("@ + (match a.content_type {
        Some(t) => t,
        None => "application/octet-stream"@,
    }) + ", "@ + (match a.size {
        Some(n) => shown_size(n as nat),
        None => ""@,
    }) + ")"@
}

fn line_of_attachment(a: &BodyPart, index: usize) -> (r: String)
    requires
        index < usize::MAX,
    ensures
        r@ == attachment_line(a.deep_view(), index + 1),
{
    let mut s = "  [".to_owned();
    s.append(dec((index + 1) as u64).as_str());
    s.append("] ");
    match &a.name {
        Some(n) => {
            s.append(n.as_str());
        },
        None => {
            s.append("unnamed");
        },
    }
    s.append(" (");
    match &a.content_type {
        Some(t) => {
            s.append(t.as_str());
        },
        None => {
            s.append("application/octet-stream");
        },
    }
    s.append(", ");
    match a.size {
        Some(n) => {
            s.append(format_size(n).as_str());
        },
        None => {
            s.append("");
        },
    }
    s.append(")");
    s
}

/// The page after the lines of the first `k` attachments.
pub open spec fn with_attachment_lines(p: PageV, list: Seq<BodyPartV>, k: int) -> PageV
    decreases k,
{
    if k <= 0 {
        p
    } else {
        with_line(
            with_attachment_lines(p, list, k - 1),
            LineKind::Body,
            attachment_line(list[k - 1], k),
        )
    }
}

/// The page after the list of attachments, if there are any.
pub open spec fn with_attachments(p: PageV, attachments: Option<Seq<BodyPartV>>) -> PageV {
    match attachments {
        Some(list) => if list.len() > 0 {
            let a = with_line(p, LineKind::Body, ""@);
            let b = with_line(
                a,
                LineKind::Body,
                "Attachments ("@ + decimal(list.len()) + ")"@,
            );
            with_line(
                with_attachment_lines(b, list, list.len() as int),
                LineKind::Body,
                "  Press 'A' then 1-9 to download/open"@,
            )
        } else {
            p
        },
        None => p,
    }
}

fn render_attachments(attachments: &Option<Vec<BodyPart>>, p: &mut Page)
    ensures
        final(p).deep_view() == with_attachments(old(p).deep_view(), attachments.deep_view()),
{
    match attachments {
        Some(list) => {
            if list.len() > 0 {
                let ghost lv = list.deep_view();
                p.line(LineKind::Body, "".to_owned());
                p.line(
                    LineKind::Body,
                    text3("Attachments (", dec(list.len() as u64).as_str(), ")"),
                );
                let ghost start = p.deep_view();
                let n: usize = list.len();
                let mut i: usize = 0;
                while i < n
                    invariant
                        i <= n,
                        n == list@.len(),
                        lv == list.deep_view(),
                        p.deep_view() == with_attachment_lines(start, lv, i as int),
                    decreases n - i,
                {
                    p.line(LineKind::Body, line_of_attachment(at(list.as_slice(), i), i));
                    i = i + 1;
                }
                p.line(LineKind::Body, "  Press 'A' then 1-9 to download/open".to_owned());
            }
        },
        None => {},
    }
}

/// What is shown of a message: its HTML if that is preferred and there is any,
/// else its plain text, else its HTML, else its preview.
pub open spec fn shown_body(e: EmailV, prefer_html: bool) -> Seq<char> {
    let html = body_source(e.html_body, e);
    if prefer_html && html is Some {
        terminal_text((html->0).1)
    } else {
        match body_source(e.text_body, e) {
            Some((part, value)) => if html_like(value) || typed_html(part) {
                terminal_text(value)
            } else {
                value
            },
            None => match html {
                Some((_, value)) => terminal_text(value),
                None => match e.preview {
                    Some(p) => p,
                    None => "(no body)"@,
                },
            },
        }
    }
}

/// What is shown of a message.
pub fn extract_body(email: &Email, prefer_html: bool) -> (r: String)
    ensures
        r@ == shown_body(email.deep_view(), prefer_html),
{
    if prefer_html {
        match find_body(&email.html_body, email) {
            Some((_, value)) => {
                return html_to_terminal(value.as_str());
            },
            None => {},
        }
    }
    match find_body(&email.text_body, email) {
        Some((part, value)) => {
            if looks_like_html(value.as_str()) || is_html_part(part) {
                html_to_terminal(value.as_str())
            } else {
                value.clone()
            }
        },
        None => match find_body(&email.html_body, email) {
            Some((_, value)) => html_to_terminal(value.as_str()),
            None => match &email.preview {
                Some(p) => p.clone(),
                None => "(no body)".to_owned(),
            },
        },
    }
}

/// The page after the body of a message and the empty line before it.
pub open spec fn with_body(p: PageV, e: EmailV, prefer_html: bool) -> PageV {
    let text = lines_of(shown_body(e, prefer_html));
    with_lines(with_line(p, LineKind::Body, ""@), LineKind::Body, text, text.len() as int)
}

/// The page of a message.
pub open spec fn email_page(e: EmailV, raw: Option<Seq<char>>, prefer_html: bool) -> PageV {
    with_body(
        with_attachments(with_headers(empty_page(), e, raw), e.attachments),
        e,
        prefer_html,
    )
}

fn render_email(email: &Email, raw_headers: Option<&String>, prefer_html: bool) -> (r: Page)
    ensures
        r.deep_view() == email_page(
            email.deep_view(),
            match raw_headers {
                Some(s) => Some(s@),
                None => None,
            },
            prefer_html,
        ),
{
    let mut p = Page::empty();
    render_headers(email, raw_headers, &mut p);
    render_attachments(&email.attachments, &mut p);
    p.line(LineKind::Body, "".to_owned());
    p.text(LineKind::Body, extract_body(email, prefer_html).as_str());
    p
}

/// The page of the first `k` messages of a thread, with bars between them.
pub open spec fn thread_page(
    emails: Seq<EmailV>,
    cache: Seq<(Seq<char>, Seq<char>)>,
    raw: bool,
    prefer_html: bool,
    k: int,
) -> PageV
    decreases k,
{
    if k <= 0 {
        empty_page()
    } else {
        let before = thread_page(emails, cache, raw, prefer_html, k - 1);
        let e = emails[k - 1];
        let start = if k > 1 {
            with_line(
                with_line(with_line(before, LineKind::Body, ""@), LineKind::Separator, ""@),
                LineKind::Body,
                ""@,
            )
        } else {
            before
        };
        with_body(
            with_headers(start, e, raw_headers_of(cache, raw, e.id)),
            e,
            prefer_html,
        )
    }
}

/// The raw headers of a message, if they are at hand and to be shown.
pub open spec fn raw_headers_of(cache: Seq<(Seq<char>, Seq<char>)>, raw: bool, id: Seq<char>)
    -> Option<Seq<char>> {
    if raw {
        lookup(cache, id)
    } else {
        None
    }
}

fn render_thread_emails(
    emails: &Vec<Email>,
    cache: &StrMap<String>,
    raw: bool,
    prefer_html: bool,
) -> (r: Page)
    ensures
        r.deep_view() == thread_page(
            emails.deep_view(),
            cache.deep_view(),
            raw,
            prefer_html,
            emails.deep_view().len() as int,
        ),
{
    let ghost ev = emails.deep_view();
    let ghost cv = cache.deep_view();
    let mut p = Page::empty();
    let mut i: usize = 0;
    while i < emails.len()
        invariant
            i <= emails@.len(),
            ev == emails.deep_view(),
            cv == cache.deep_view(),
            p.deep_view() == thread_page(ev, cv, raw, prefer_html, i as int),
        decreases emails@.len() - i,
    {
        let e = at(emails.as_slice(), i);
        if i > 0 {
            p.line(LineKind::Body, "".to_owned());
            p.line(LineKind::Separator, "".to_owned());
            p.line(LineKind::Body, "".to_owned());
        }
        let headers = if raw {
            cache.get(e.id.as_str())
        } else {
            None
        };
        render_headers(e, headers, &mut p);
        p.line(LineKind::Body, "".to_owned());
        p.text(LineKind::Body, extract_body(e, prefer_html).as_str());
        i = i + 1;
    }
    p
}

/// Every line of a page has a kind.
pub open spec fn page_ok(p: PageV) -> bool {
    p.lines.len() == p.kinds.len()
}

proof fn lemma_lines_keep_page_ok(p: PageV, kind: LineKind, texts: Seq<Seq<char>>, k: int)
    requires
        page_ok(p),
    ensures
        page_ok(with_lines(p, kind, texts, k)),
    decreases k,
{
    if k > 0 {
        lemma_lines_keep_page_ok(p, kind, texts, k - 1);
    }
}

proof fn lemma_attachments_keep_page_ok(p: PageV, list: Seq<BodyPartV>, k: int)
    requires
        page_ok(p),
    ensures
        page_ok(with_attachment_lines(p, list, k)),
    decreases k,
{
    if k > 0 {
        lemma_attachments_keep_page_ok(p, list, k - 1);
    }
}

proof fn lemma_headers_keep_page_ok(p: PageV, e: EmailV, raw: Option<Seq<char>>)
    requires
        page_ok(p),
    ensures
        page_ok(with_headers(p, e, raw)),
{
    match raw {
        Some(text) => {
            lemma_lines_keep_page_ok(
                p,
                LineKind::Header,
                lines_of(text),
                lines_of(text).len() as int,
            );
        },
        None => {},
    }
}

proof fn lemma_body_keeps_page_ok(p: PageV, e: EmailV, prefer_html: bool)
    requires
        page_ok(p),
    ensures
        page_ok(with_body(p, e, prefer_html)),
{
    let text = lines_of(shown_body(e, prefer_html));
    lemma_lines_keep_page_ok(
        with_line(p, LineKind::Body, ""@),
        LineKind::Body,
        text,
        text.len() as int,
    );
}

/// Every line of a message has a kind, and so has every line of a thread.
pub proof fn law_every_line_has_a_kind(
    e: EmailV,
    header: Option<Seq<char>>,
    emails: Seq<EmailV>,
    cache: Seq<(Seq<char>, Seq<char>)>,
    raw: bool,
    prefer_html: bool,
    k: int,
)
    ensures
        page_ok(email_page(e, header, prefer_html)),
        page_ok(thread_page(emails, cache, raw, prefer_html, k)),
    decreases k,
{
    let h = with_headers(empty_page(), e, header);
    lemma_headers_keep_page_ok(empty_page(), e, header);
    match e.attachments {
        Some(list) => {
            let a = with_line(h, LineKind::Body, ""@);
            let b = with_line(
                a,
                LineKind::Body,
                "Attachments ("@ + decimal(list.len()) + ")"@,
            );
            lemma_attachments_keep_page_ok(b, list, list.len() as int);
        },
        None => {},
    }
    lemma_body_keeps_page_ok(with_attachments(h, e.attachments), e, prefer_html);
    if k > 0 {
        law_every_line_has_a_kind(e, header, emails, cache, raw, prefer_html, k - 1);
        let before = thread_page(emails, cache, raw, prefer_html, k - 1);
        let start = if k > 1 {
            with_line(
                with_line(with_line(before, LineKind::Body, ""@), LineKind::Separator, ""@),
                LineKind::Body,
                ""@,
            )
        } else {
            before
        };
        let one = emails[k - 1];
        lemma_headers_keep_page_ok(start, one, raw_headers_of(cache, raw, one.id));
        lemma_body_keeps_page_ok(
            with_headers(start, one, raw_headers_of(cache, raw, one.id)),
            one,
            prefer_html,
        );
    }
}
// ---------------------------------------------------------------------------
// The view
// ---------------------------------------------------------------------------

/// A view before its message or thread has come.
pub open spec fn blank_email_view(
    reply_from_address: Seq<char>,
    email_id: Seq<char>,
    thread_id: Option<Seq<char>>,
    can_expire_now: bool,
    mailboxes: Seq<MailboxV>,
    archive_folder: Seq<char>,
    deleted_folder: Seq<char>,
) -> EmailViewV {
    EmailViewV {
        reply_from_address,
        can_expire_now,
        email_id,
        email: None,
        lines: Seq::empty(),
        line_kinds: Seq::empty(),
        scroll: 0,
        loading: true,
        error: None,
        pending_reply_all: None,
        pending_forward: false,
        pending_compose: None,
        pending_open: None,
        status_message: None,
        next_write_op_id: 1,
        pending_write_ops: Seq::empty(),
        attachment_picking: false,
        show_all_headers: false,
        raw_headers_cache: Seq::empty(),
        raw_headers_loading: false,
        thread_id,
        thread_emails: Seq::empty(),
        mailboxes,
        archive_folder,
        deleted_folder,
        move_mode: false,
        move_cursor: 0,
        prefer_html: false,
    }
}

/// The view with a page in it.
pub open spec fn with_page(v: EmailViewV, p: PageV) -> EmailViewV {
    EmailViewV { lines: p.lines, line_kinds: p.kinds, ..v }
}

/// The page of the view's thread.
pub open spec fn page_of_thread(v: EmailViewV) -> PageV {
    thread_page(
        v.thread_emails,
        v.raw_headers_cache,
        v.show_all_headers,
        v.prefer_html,
        v.thread_emails.len() as int,
    )
}

/// The page of a message in the view.
pub open spec fn page_of_email(v: EmailViewV, e: EmailV) -> PageV {
    email_page(
        e,
        raw_headers_of(v.raw_headers_cache, v.show_all_headers, e.id),
        v.prefer_html,
    )
}

/// The view after its lines are made anew.
pub open spec fn rerendered(v: EmailViewV) -> EmailViewV {
    if v.thread_id is Some && v.thread_emails.len() > 0 {
        with_page(v, page_of_thread(v))
    } else {
        match v.email {
            Some(e) => with_page(v, page_of_email(v, e)),
            None => v,
        }
    }
}

/// The view with a keyword of its message set or not.
pub open spec fn with_own_mark(v: EmailViewV, word: Seq<char>, on: bool) -> EmailViewV {
    match v.email {
        Some(e) => EmailViewV { email: Some(with_keyword(e, word, on)), ..v },
        None => v,
    }
}

/// The view after a change whose outcome is not known is undone.
pub open spec fn undone(v: EmailViewV, op: EmailWriteOpV) -> EmailViewV {
    match op {
        EmailWriteOpV::Flag { old_flagged } => with_own_mark(v, "$flagged"@, old_flagged),
        EmailWriteOpV::Seen { old_seen } => with_own_mark(v, "$seen"@, old_seen),
    }
}

/// The number of attachments.
pub open spec fn attachments_in(v: EmailViewV) -> nat {
    match v.email {
        Some(e) => match e.attachments {
            Some(list) => list.len(),
            None => 0,
        },
        None => 0,
    }
}

/// The attachment at a position.
pub open spec fn attachment_at(v: EmailViewV, index: int) -> Option<BodyPartV> {
    if index < attachments_in(v) {
        Some(v.email->0.attachments->0[index])
    } else {
        None
    }
}

/// The view and the outbox after an attachment is asked for.
pub open spec fn attachment_asked(v: EmailViewV, o: OutboxV, index: int) -> (EmailViewV, OutboxV) {
    match attachment_at(v, index) {
        Some(a) => match a.blob_id {
            Some(blob_id) => {
                let name = match a.name {
                    Some(n) => n,
                    None => "attachment"@,
                };
                (
                    EmailViewV {
                        status_message: Some("Downloading "@ + name + "..."@),
                        ..v
                    },
                    sent_to(
                        o,
                        BackendCommandV::DownloadAttachment {
                            blob_id,
                            name,
                            content_type: match a.content_type {
                                Some(t) => t,
                                None => "application/octet-stream"@,
                            },
                        },
                    ),
                )
            },
            None => (
                EmailViewV { status_message: Some("Attachment has no blob ID"@), ..v },
                o,
            ),
        },
        None => (EmailViewV { status_message: Some("Invalid attachment number"@), ..v }, o),
    }
}

/// What is to be done, and the view, after a command was sent that ends the view.
pub open spec fn left(v: EmailViewV, o: OutboxV, cmd: BackendCommandV, label: Seq<char>) -> (
    EmailViewV,
    OutboxV,
    ViewActionV,
) {
    let w = EmailViewV { next_write_op_id: next_id(v.next_write_op_id), ..v };
    if o.open {
        (w, sent_to(o, cmd), ViewActionV::Pop)
    } else {
        (
            EmailViewV { status_message: Some(with_error(label, closed_channel())), ..w },
            o,
            ViewActionV::Continue,
        )
    }
}

/// The command that moves the message or the thread.
pub open spec fn move_command(v: EmailViewV, target: Seq<char>) -> BackendCommandV {
    match v.thread_id {
        Some(thread_id) => BackendCommandV::MoveThread {
            op_id: v.next_write_op_id,
            thread_id,
            to_mailbox_id: target,
        },
        None => BackendCommandV::MoveEmail {
            op_id: v.next_write_op_id,
            id: v.email_id,
            to_mailbox_id: target,
        },
    }
}

/// The command that destroys the message or the thread.
pub open spec fn destroy_command(v: EmailViewV) -> BackendCommandV {
    match v.thread_id {
        Some(thread_id) => BackendCommandV::DestroyThread { op_id: v.next_write_op_id, thread_id },
        None => BackendCommandV::DestroyEmail { op_id: v.next_write_op_id, id: v.email_id },
    }
}

/// What is said of a folder that is not there.
pub open spec fn unresolved(label: Seq<char>, folder: Seq<char>) -> Seq<char> {
    label + " failed: could not resolve folder '"@ + folder + "'"@
}

/// What is said of a folder that is not there.
pub fn unresolved_message(label: &str, folder: &str) -> (r: String)
    ensures
        r@ == unresolved(label@, folder@),
{
    let mut s = text3(label, " failed: could not resolve folder '", folder);
    s.append("'");
    s
}

/// The view after its message or thread is moved to a folder.
pub open spec fn moved_to_folder(
    v: EmailViewV,
    o: OutboxV,
    folder: Seq<char>,
    label: Seq<char>,
) -> (EmailViewV, OutboxV, ViewActionV) {
    match resolved_mailbox(folder, v.mailboxes) {
        Some(target) => left(v, o, move_command(v, target), label),
        None => (
            EmailViewV { status_message: Some(unresolved(label, folder)), ..v },
            o,
            ViewActionV::Continue,
        ),
    }
}

/// What is said where nothing can be destroyed.
pub open spec fn no_expiry() -> Seq<char> {
    "Expire is only available in the deleted folder"@
}

/// The view after the key that destroys the message or the thread.
pub open spec fn expired(v: EmailViewV, o: OutboxV) -> (EmailViewV, OutboxV, ViewActionV) {
    if v.can_expire_now {
        left(v, o, destroy_command(v), "Expire"@)
    } else {
        (
            EmailViewV { status_message: Some(no_expiry()), ..v },
            o,
            ViewActionV::Continue,
        )
    }
}

/// The view after the message is asked for with what a reply needs.
pub open spec fn reply_data_asked(v: EmailViewV, o: OutboxV) -> OutboxV {
    sent_to(o, BackendCommandV::GetEmailForReply { id: v.email_id })
}

/// The view and the outbox after a change of a keyword: the change is shown at
/// once, and undone where it cannot be sent.
pub open spec fn marked(
    v: EmailViewV,
    o: OutboxV,
    word: Seq<char>,
    on: bool,
    op: EmailWriteOpV,
    cmd: BackendCommandV,
    label: Seq<char>,
) -> (EmailViewV, OutboxV) {
    let id = v.next_write_op_id;
    let w = with_own_mark(
        EmailViewV {
            next_write_op_id: next_id(id),
            pending_write_ops: num_with(v.pending_write_ops, id, op),
            ..v
        },
        word,
        on,
    );
    if o.open {
        (w, sent_to(o, cmd))
    } else {
        let u = undone(w, op);
        (
            EmailViewV {
                pending_write_ops: num_without(w.pending_write_ops, id),
                status_message: Some(with_error(label, closed_channel())),
                ..u
            },
            o,
        )
    }
}

/// The view and the outbox after the key that flags the message or takes the flag
/// away.
pub open spec fn flag_toggled(v: EmailViewV, o: OutboxV) -> (EmailViewV, OutboxV) {
    match v.email {
        Some(e) => {
            let old = lookup(e.keywords, "$flagged"@) is Some;
            marked(
                v,
                o,
                "$flagged"@,
                !old,
                EmailWriteOpV::Flag { old_flagged: old },
                BackendCommandV::SetEmailFlagged {
                    op_id: v.next_write_op_id,
                    id: v.email_id,
                    flagged: !old,
                },
                "Flag update"@,
            )
        },
        None => (v, o),
    }
}

/// The command that marks a message as read or as unread.
pub open spec fn seen_command(op_id: u64, id: Seq<char>, seen: bool) -> BackendCommandV {
    if seen {
        BackendCommandV::MarkEmailRead { op_id, id }
    } else {
        BackendCommandV::MarkEmailUnread { op_id, id }
    }
}

/// The command that marks a message as read or as unread.
pub fn make_seen_command(op_id: u64, id: String, seen: bool) -> (r: BackendCommand)
    ensures
        r.deep_view() == seen_command(op_id, id@, seen),
{
    if seen {
        BackendCommand::MarkEmailRead { op_id, id }
    } else {
        BackendCommand::MarkEmailUnread { op_id, id }
    }
}

/// The view and the outbox after the key that marks the message as read or as
/// unread.
pub open spec fn seen_toggled(v: EmailViewV, o: OutboxV) -> (EmailViewV, OutboxV) {
    match v.email {
        Some(e) => {
            let old = lookup(e.keywords, "$seen"@) is Some;
            marked(
                v,
                o,
                "$seen"@,
                !old,
                EmailWriteOpV::Seen { old_seen: old },
                seen_command(v.next_write_op_id, v.email_id, !old),
                "Read state update"@,
            )
        },
        None => (v, o),
    }
}

/// The ids among the first `k` messages whose raw headers are not at hand.
pub open spec fn unfetched(emails: Seq<EmailV>, cache: Seq<(Seq<char>, Seq<char>)>, k: int) -> Seq<
    Seq<char>,
>
    decreases k,
{
    if k <= 0 {
        Seq::empty()
    } else {
        let before = unfetched(emails, cache, k - 1);
        if lookup(cache, emails[k - 1].id) is None {
            before.push(emails[k - 1].id)
        } else {
            before
        }
    }
}

/// The ids of the shown messages whose raw headers are not at hand.
pub open spec fn headers_missing(v: EmailViewV) -> Seq<Seq<char>> {
    if v.thread_id is Some {
        unfetched(v.thread_emails, v.raw_headers_cache, v.thread_emails.len() as int)
    } else if lookup(v.raw_headers_cache, v.email_id) is None {
        Seq::empty().push(v.email_id)
    } else {
        Seq::empty()
    }
}

/// The outbox after the raw headers of the first `k` messages are asked for.
pub open spec fn headers_asked(o: OutboxV, ids: Seq<Seq<char>>, k: int) -> OutboxV
    decreases k,
{
    if k <= 0 {
        o
    } else {
        sent_to(headers_asked(o, ids, k - 1), BackendCommandV::GetEmailRawHeaders { id: ids[k - 1] })
    }
}

/// The view and the outbox after the key that shows the raw headers or hides them.
pub open spec fn headers_toggled(v: EmailViewV, o: OutboxV) -> (EmailViewV, OutboxV) {
    let w = EmailViewV { show_all_headers: !v.show_all_headers, ..v };
    let ids = headers_missing(w);
    if w.show_all_headers && ids.len() > 0 {
        (
            EmailViewV {
                raw_headers_loading: true,
                status_message: Some("Loading raw headers..."@),
                ..w
            },
            headers_asked(o, ids, ids.len() as int),
        )
    } else {
        (rerendered(w), o)
    }
}

/// The view after the key that shows the HTML or the plain text.
pub open spec fn html_toggled(v: EmailViewV) -> EmailViewV {
    let html = !v.prefer_html;
    rerendered(
        EmailViewV {
            prefer_html: html,
            status_message: Some(
                if html {
                    "Showing HTML body"@
                } else {
                    "Showing plain text body"@
                },
            ),
            ..v
        },
    )
}

/// The view and the outbox after the key for attachments: one is asked for at once,
/// of several one is to be picked.
pub open spec fn attach_key(v: EmailViewV, o: OutboxV) -> (EmailViewV, OutboxV) {
    let n = attachments_in(v);
    if n == 0 {
        (EmailViewV { status_message: Some("No attachments"@), ..v }, o)
    } else if n == 1 {
        attachment_asked(v, o, 0)
    } else {
        (
            EmailViewV {
                attachment_picking: true,
                status_message: Some("Download attachment [1-"@ + decimal(n) + "]:"@),
                ..v
            },
            o,
        )
    }
}

/// The view and the outbox after a key while an attachment is picked.
pub open spec fn pick_key(v: EmailViewV, o: OutboxV, key: Key) -> (EmailViewV, OutboxV) {
    let w = EmailViewV { attachment_picking: false, ..v };
    match key {
        Key::Char(c) => if '1' <= c && c <= '9' {
            attachment_asked(w, o, c as int - '1' as int)
        } else {
            (EmailViewV { status_message: Some("Cancelled"@), ..w }, o)
        },
        _ => (EmailViewV { status_message: Some("Cancelled"@), ..w }, o),
    }
}

/// Where a key moves the cursor while a mailbox is picked; nothing if it moves
/// nothing.
pub open spec fn picker_key(key: Key, cursor: usize, n: nat) -> Option<usize> {
    match key {
        Key::Char('n') => Some(cursor_down(cursor, n)),
        Key::Char('j') => Some(cursor_down(cursor, n)),
        Key::Down => Some(cursor_down(cursor, n)),
        Key::ScrollDown => Some(cursor_down(cursor, n)),
        Key::Char('p') => Some(cursor_up(cursor)),
        Key::Char('k') => Some(cursor_up(cursor)),
        Key::Up => Some(cursor_up(cursor)),
        Key::ScrollUp => Some(cursor_up(cursor)),
        _ => None,
    }
}

/// Where a key moves the cursor while a mailbox is picked.
pub fn move_in_picker(key: Key, cursor: usize, n: usize) -> (r: Option<usize>)
    ensures
        r == picker_key(key, cursor, n as nat),
{
    match key {
        Key::Char('n') => Some(step_down(cursor, n)),
        Key::Char('j') => Some(step_down(cursor, n)),
        Key::Down => Some(step_down(cursor, n)),
        Key::ScrollDown => Some(step_down(cursor, n)),
        Key::Char('p') => Some(step_up(cursor, 1)),
        Key::Char('k') => Some(step_up(cursor, 1)),
        Key::Up => Some(step_up(cursor, 1)),
        Key::ScrollUp => Some(step_up(cursor, 1)),
        _ => None,
    }
}

/// The view after a key while a mailbox is picked, the outbox, and what is to be
/// done.
pub open spec fn move_key(v: EmailViewV, o: OutboxV, key: Key) -> (
    EmailViewV,
    OutboxV,
    ViewActionV,
) {
    match picker_key(key, v.move_cursor, v.mailboxes.len()) {
        Some(c) => (EmailViewV { move_cursor: c, ..v }, o, ViewActionV::Continue),
        None => if key == Key::Escape || key == Key::Char('q') {
            (EmailViewV { move_mode: false, ..v }, o, ViewActionV::Continue)
        } else if key == Key::Enter && v.move_cursor < v.mailboxes.len() {
            let target = v.mailboxes[v.move_cursor as int].id;
            left(EmailViewV { move_mode: false, ..v }, o, move_command(v, target), "Move"@)
        } else {
            (v, o, ViewActionV::Continue)
        },
    }
}

/// The view after a key outside the modes, the outbox, and what is to be done.
pub open spec fn read_key(v: EmailViewV, o: OutboxV, key: Key, rows: u16) -> (
    EmailViewV,
    OutboxV,
    ViewActionV,
) {
    match pager_key(key, v.scroll, v.lines.len(), rows) {
        Some(s) => (EmailViewV { scroll: s, ..v }, o, ViewActionV::Continue),
        None => match key {
            Key::Char('q') => (v, o, ViewActionV::Pop),
            Key::Char('r') => (
                EmailViewV { pending_reply_all: Some(false), ..v },
                reply_data_asked(v, o),
                ViewActionV::Continue,
            ),
            Key::Char('R') => (
                EmailViewV { pending_reply_all: Some(true), ..v },
                reply_data_asked(v, o),
                ViewActionV::Continue,
            ),
            Key::Char('F') => (
                EmailViewV { pending_forward: true, ..v },
                reply_data_asked(v, o),
                ViewActionV::Continue,
            ),
            Key::Char('f') => {
                let r = flag_toggled(v, o);
                (r.0, r.1, ViewActionV::Continue)
            },
            Key::Char('u') => {
                let r = seen_toggled(v, o);
                (r.0, r.1, ViewActionV::Continue)
            },
            Key::Char('D') => expired(v, o),
            Key::Char('a') => moved_to_folder(v, o, v.archive_folder, "Archive"@),
            Key::Char('d') => moved_to_folder(v, o, v.deleted_folder, "Delete"@),
            Key::Char('m') => (
                if v.mailboxes.len() > 0 {
                    EmailViewV { move_mode: true, move_cursor: 0, ..v }
                } else {
                    v
                },
                o,
                ViewActionV::Continue,
            ),
            Key::Char('A') => {
                let r = attach_key(v, o);
                (r.0, r.1, ViewActionV::Continue)
            },
            Key::Char('c') => (v, o, ViewActionV::Compose(compose_draft(v.reply_from_address))),
            Key::Char('v') => {
                let r = headers_toggled(v, o);
                (r.0, r.1, ViewActionV::Continue)
            },
            Key::Char('h') => (html_toggled(v), o, ViewActionV::Continue),
            Key::Char('?') => (v, o, ViewActionV::Push(AnyViewV::Help(help_view()))),
            _ => (v, o, ViewActionV::Continue),
        },
    }
}

/// The view after a key, the outbox, and what is to be done.
pub open spec fn email_view_key(v: EmailViewV, o: OutboxV, key: Key, rows: u16) -> (
    EmailViewV,
    OutboxV,
    ViewActionV,
) {
    if v.attachment_picking {
        let r = pick_key(v, o, key);
        (r.0, r.1, ViewActionV::Continue)
    } else if v.move_mode {
        move_key(v, o, key)
    } else {
        read_key(v, o, key, rows)
    }
}

// ---------------------------------------------------------------------------
// Responses
// ---------------------------------------------------------------------------

/// The ids of the first `k` messages that are unread.
pub open spec fn unread_ids(emails: Seq<EmailV>, k: int) -> Seq<Seq<char>>
    decreases k,
{
    if k <= 0 {
        Seq::empty()
    } else {
        let before = unread_ids(emails, k - 1);
        if lookup(emails[k - 1].keywords, "$seen"@) is None {
            before.push(emails[k - 1].id)
        } else {
            before
        }
    }
}

/// The view and the outbox after the messages of its thread have come: the last one
/// counts as the shown one, and those unread are marked as read.
pub open spec fn thread_come(
    v: EmailViewV,
    o: OutboxV,
    thread_id: Seq<char>,
    result: Result<Seq<EmailV>, Seq<char>>,
) -> (EmailViewV, OutboxV) {
    match result {
        Ok(emails) => {
            let a = EmailViewV { loading: false, thread_emails: emails, error: None, ..v };
            let b = if emails.len() > 0 {
                EmailViewV { email_id: emails.last().id, email: Some(emails.last()), ..a }
            } else {
                a
            };
            let ids = unread_ids(emails, emails.len() as int);
            (
                with_page(b, page_of_thread(b)),
                if ids.len() > 0 {
                    sent_to(o, BackendCommandV::MarkThreadRead { thread_id, email_ids: ids })
                } else {
                    o
                },
            )
        },
        Err(e) => (
            EmailViewV { loading: false, error: Some("Failed to load thread: "@ + e), ..v },
            o,
        ),
    }
}

/// The view after its message has come.
pub open spec fn email_come(v: EmailViewV, result: Result<EmailV, Seq<char>>) -> EmailViewV {
    match result {
        Ok(e) => EmailViewV {
            loading: false,
            email: Some(e),
            error: None,
            pending_write_ops: Seq::empty(),
            ..with_page(v, page_of_email(v, e))
        },
        Err(e) => EmailViewV {
            loading: false,
            error: Some("Failed to load email: "@ + e),
            ..v
        },
    }
}

/// The view after what a reply needs has come: a draft is ready.
pub open spec fn reply_data_come(v: EmailViewV, result: Result<EmailV, Seq<char>>) -> EmailViewV {
    let w = EmailViewV { pending_reply_all: None, pending_forward: false, ..v };
    match result {
        Ok(e) => EmailViewV {
            email: Some(e),
            pending_compose: if v.pending_forward {
                Some(forward_draft(e, v.reply_from_address))
            } else {
                match v.pending_reply_all {
                    Some(all) => Some(reply_draft(e, all, v.reply_from_address)),
                    None => v.pending_compose,
                }
            },
            ..w
        },
        Err(e) => EmailViewV { error: Some("Failed to load reply data: "@ + e), ..w },
    }
}

/// The view after the outcome of a change has come: one that failed is undone.
pub open spec fn change_settled(
    v: EmailViewV,
    op_id: u64,
    action: EmailMutationAction,
    result: Result<(), Seq<char>>,
) -> (EmailViewV, bool) {
    match num_lookup(v.pending_write_ops, op_id) {
        Some(op) => {
            let w = EmailViewV {
                pending_write_ops: num_without(v.pending_write_ops, op_id),
                ..v
            };
            (
                match result {
                    Ok(_) => w,
                    Err(e) => EmailViewV {
                        status_message: Some(with_error(action_name(action), e)),
                        ..undone(w, op)
                    },
                },
                true,
            )
        },
        None => (v, false),
    }
}

/// The view after an attachment was saved, or was not: a saved one is to be opened.
pub open spec fn attachment_come(
    v: EmailViewV,
    name: Seq<char>,
    result: Result<Seq<char>, Seq<char>>,
) -> EmailViewV {
    match result {
        Ok(path) => EmailViewV {
            status_message: Some("Saved: "@ + path),
            pending_open: Some((name, path)),
            ..v
        },
        Err(e) => EmailViewV { status_message: Some("Download failed: "@ + e), ..v },
    }
}

/// Whether the raw headers of every shown message are at hand.
pub open spec fn all_headers_here(v: EmailViewV) -> bool {
    if v.thread_id is Some {
        forall|i: int|
            0 <= i < v.thread_emails.len() ==> lookup(
                v.raw_headers_cache,
                (#[trigger] v.thread_emails[i]).id,
            ) is Some
    } else {
        lookup(v.raw_headers_cache, v.email_id) is Some
    }
}

/// The view after raw headers have come, or have not.
pub open spec fn headers_come(
    v: EmailViewV,
    id: Seq<char>,
    result: Result<Seq<char>, Seq<char>>,
) -> EmailViewV {
    let w = match result {
        Ok(h) => EmailViewV { raw_headers_cache: with_entry(v.raw_headers_cache, id, h), ..v },
        Err(e) => EmailViewV {
            status_message: Some("Failed to load raw headers: "@ + e),
            ..v
        },
    };
    if all_headers_here(w) {
        let x = EmailViewV { raw_headers_loading: false, status_message: None, ..w };
        if x.show_all_headers {
            rerendered(x)
        } else {
            x
        }
    } else {
        w
    }
}

/// The view after a response, the outbox, and whether the response was for it.
pub open spec fn email_view_response(v: EmailViewV, o: OutboxV, response: BackendResponseV) -> (
    EmailViewV,
    OutboxV,
    bool,
) {
    match response {
        BackendResponseV::ThreadEmails { thread_id, emails } => if v.thread_id == Some(thread_id) {
            let r = thread_come(v, o, thread_id, emails);
            (r.0, r.1, true)
        } else {
            (v, o, false)
        },
        BackendResponseV::EmailBody { id, result } => if id == v.email_id {
            (email_come(v, result), o, true)
        } else {
            (v, o, false)
        },
        BackendResponseV::EmailForReply { id, result } => if id == v.email_id {
            (reply_data_come(v, result), o, true)
        } else {
            (v, o, false)
        },
        BackendResponseV::EmailMutation { op_id, id, action, result } => if id == v.email_id {
            let r = change_settled(v, op_id, action, result);
            (r.0, o, r.1)
        } else {
            (v, o, false)
        },
        BackendResponseV::AttachmentDownloaded { name, result } => (
            attachment_come(v, name, result),
            o,
            true,
        ),
        BackendResponseV::EmailRawHeaders { id, result } => (headers_come(v, id, result), o, true),
        _ => (v, o, false),
    }
}

impl EmailView {
    fn blank(
        reply_from_address: String,
        email_id: String,
        thread_id: Option<String>,
        can_expire_now: bool,
        mailboxes: Vec<Mailbox>,
        archive_folder: String,
        deleted_folder: String,
    ) -> (r: EmailView)
        ensures
            r.deep_view() == blank_email_view(
                reply_from_address@,
                email_id@,
                thread_id.deep_view(),
                can_expire_now,
                mailboxes.deep_view(),
                archive_folder@,
                deleted_folder@,
            ),
    {
        let lines: Vec<String> = no_items();
        let line_kinds: Vec<LineKind> = no_items();
        let pending_write_ops: Vec<(u64, EmailWriteOp)> = no_items();
        let raw_headers_cache: StrMap<String> = StrMap::new();
        let thread_emails: Vec<Email> = no_items();
        EmailView {
            reply_from_address,
            can_expire_now,
            email_id,
            email: None,
            lines,
            line_kinds,
            scroll: 0,
            loading: true,
            error: None,
            pending_reply_all: None,
            pending_forward: false,
            pending_compose: None,
            pending_open: None,
            status_message: None,
            next_write_op_id: 1,
            pending_write_ops,
            attachment_picking: false,
            show_all_headers: false,
            raw_headers_cache,
            raw_headers_loading: false,
            thread_id,
            thread_emails,
            mailboxes,
            archive_folder,
            deleted_folder,
            move_mode: false,
            move_cursor: 0,
            prefer_html: false,
        }
    }

    /// The view of a message before it has come.
    pub fn new(
        reply_from_address: String,
        email_id: String,
        can_expire_now: bool,
        mailboxes: Vec<Mailbox>,
        archive_folder: String,
        deleted_folder: String,
    ) -> (r: EmailView)
        ensures
            r.deep_view() == blank_email_view(
                reply_from_address@,
                email_id@,
                None,
                can_expire_now,
                mailboxes.deep_view(),
                archive_folder@,
                deleted_folder@,
            ),
    {
        EmailView::blank(
            reply_from_address,
            email_id,
            None,
            can_expire_now,
            mailboxes,
            archive_folder,
            deleted_folder,
        )
    }

    /// The view of a thread before it has come; asks for its messages.
    pub fn new_thread(
        reply_from_address: String,
        thread_id: String,
        can_expire_now: bool,
        mailboxes: Vec<Mailbox>,
        archive_folder: String,
        deleted_folder: String,
        out: &mut Outbox,
    ) -> (r: EmailView)
        ensures
            final(out).deep_view() == sent_to(
                old(out).deep_view(),
                BackendCommandV::QueryThreadEmails { thread_id: thread_id@ },
            ),
            r.deep_view() == blank_email_view(
                reply_from_address@,
                Seq::empty(),
                Some(thread_id@),
                can_expire_now,
                mailboxes.deep_view(),
                archive_folder@,
                deleted_folder@,
            ),
    {
        let _ = out.send(BackendCommand::QueryThreadEmails { thread_id: thread_id.clone() });
        EmailView::blank(
            reply_from_address,
            String::new(),
            Some(thread_id),
            can_expire_now,
            mailboxes,
            archive_folder,
            deleted_folder,
        )
    }

    /// Whether the view wants to hear of the mouse.
    pub fn wants_mouse(&self) -> (r: bool)
        ensures
            !r,
    {
        false
    }

    fn set_page(&mut self, p: Page)
        ensures
            final(self).deep_view() == with_page(old(self).deep_view(), p.deep_view()),
    {
        self.lines = p.lines;
        self.line_kinds = p.kinds;
    }

    fn page_of(&self, email: &Email) -> (r: Page)
        ensures
            r.deep_view() == page_of_email(self.deep_view(), email.deep_view()),
    {
        let raw = if self.show_all_headers {
            self.raw_headers_cache.get(email.id.as_str())
        } else {
            None
        };
        render_email(email, raw, self.prefer_html)
    }

    fn thread_lines(&self) -> (r: Page)
        ensures
            r.deep_view() == page_of_thread(self.deep_view()),
    {
        render_thread_emails(
            &self.thread_emails,
            &self.raw_headers_cache,
            self.show_all_headers,
            self.prefer_html,
        )
    }

    fn rerender_lines(&mut self)
        ensures
            final(self).deep_view() == rerendered(old(self).deep_view()),
    {
        if self.thread_id.is_some() && self.thread_emails.len() > 0 {
            let p = self.thread_lines();
            self.set_page(p);
        } else {
            let p = match &self.email {
                Some(e) => Some(self.page_of(e)),
                None => None,
            };
            match p {
                Some(p) => {
                    self.set_page(p);
                },
                None => {},
            }
        }
    }

    fn set_mark(&mut self, word: &str, on: bool)
        ensures
            final(self).deep_view() == with_own_mark(old(self).deep_view(), word@, on),
    {
        let marked = match &self.email {
            Some(e) => {
                let mut m = e.dup();
                mark_email(&mut m, word, on);
                Some(m)
            },
            None => None,
        };
        self.email = marked;
    }

    fn rollback_pending_write(&mut self, op: &EmailWriteOp)
        ensures
            final(self).deep_view() == undone(old(self).deep_view(), op.deep_view()),
    {
        match op {
            EmailWriteOp::Flag { old_flagged } => {
                self.set_mark("$flagged", *old_flagged);
            },
            EmailWriteOp::Seen { old_seen } => {
                self.set_mark("$seen", *old_seen);
            },
        }
    }

    fn attachment_count(&self) -> (r: usize)
        ensures
            r == attachments_in(self.deep_view()),
    {
        match &self.email {
            Some(e) => match &e.attachments {
                Some(list) => list.len(),
                None => 0,
            },
            None => 0,
        }
    }

    fn attachment(&self, index: usize) -> (r: Option<BodyPart>)
        ensures
            r.deep_view() == attachment_at(self.deep_view(), index as int),
    {
        match &self.email {
            Some(e) => match &e.attachments {
                Some(list) => {
                    if index < list.len() {
                        Some(at(list.as_slice(), index).dup())
                    } else {
                        None
                    }
                },
                None => None,
            },
            None => None,
        }
    }

    fn download_attachment(&mut self, index: usize, out: &mut Outbox)
        ensures
            (final(self).deep_view(), final(out).deep_view()) == attachment_asked(
                old(self).deep_view(),
                old(out).deep_view(),
                index as int,
            ),
    {
        match self.attachment(index) {
            Some(a) => match a.blob_id {
                Some(blob_id) => {
                    let name = match a.name {
                        Some(n) => n,
                        None => "attachment".to_owned(),
                    };
                    let content_type = match a.content_type {
                        Some(t) => t,
                        None => "application/octet-stream".to_owned(),
                    };
                    self.status_message = Some(text3("Downloading ", name.as_str(), "..."));
                    let _ = out.send(
                        BackendCommand::DownloadAttachment { blob_id, name, content_type },
                    );
                },
                None => {
                    self.status_message = Some("Attachment has no blob ID".to_owned());
                },
            },
            None => {
                self.status_message = Some("Invalid attachment number".to_owned());
            },
        }
    }

    fn leave(&mut self, cmd: BackendCommand, label: &str, out: &mut Outbox) -> (r: ViewAction)
        ensures
            (final(self).deep_view(), final(out).deep_view(), r.deep_view()) == left(
                old(self).deep_view(),
                old(out).deep_view(),
                cmd.deep_view(),
                label@,
            ),
    {
        let _ = next_generated_op_id(&mut self.next_write_op_id);
        if out.send(cmd) {
            ViewAction::Pop
        } else {
            self.status_message = Some(failure(label, "sending on a closed channel"));
            ViewAction::Continue
        }
    }

    fn make_move_command(&self, target: String) -> (r: BackendCommand)
        ensures
            r.deep_view() == move_command(self.deep_view(), target@),
    {
        match &self.thread_id {
            Some(thread_id) => BackendCommand::MoveThread {
                op_id: self.next_write_op_id,
                thread_id: thread_id.clone(),
                to_mailbox_id: target,
            },
            None => BackendCommand::MoveEmail {
                op_id: self.next_write_op_id,
                id: self.email_id.clone(),
                to_mailbox_id: target,
            },
        }
    }

    fn move_to_folder(&mut self, folder: &str, label: &str, out: &mut Outbox) -> (r: ViewAction)
        ensures
            (final(self).deep_view(), final(out).deep_view(), r.deep_view()) == moved_to_folder(
                old(self).deep_view(),
                old(out).deep_view(),
                folder@,
                label@,
            ),
    {
        match resolve_mailbox_id(folder, self.mailboxes.as_slice()) {
            Some(target) => {
                let cmd = self.make_move_command(target);
                self.leave(cmd, label, out)
            },
            None => {
                self.status_message = Some(unresolved_message(label, folder));
                ViewAction::Continue
            },
        }
    }

    fn expire_now(&mut self, out: &mut Outbox) -> (r: ViewAction)
        ensures
            (final(self).deep_view(), final(out).deep_view(), r.deep_view()) == expired(
                old(self).deep_view(),
                old(out).deep_view(),
            ),
    {
        if !self.can_expire_now {
            self.status_message = Some("Expire is only available in the deleted folder".to_owned());
            return ViewAction::Continue;
        }
        let cmd = match &self.thread_id {
            Some(thread_id) => BackendCommand::DestroyThread {
                op_id: self.next_write_op_id,
                thread_id: thread_id.clone(),
            },
            None => BackendCommand::DestroyEmail {
                op_id: self.next_write_op_id,
                id: self.email_id.clone(),
            },
        };
        self.leave(cmd, "Expire", out)
    }

    fn ask_reply_data(&self, out: &mut Outbox)
        ensures
            final(out).deep_view() == reply_data_asked(self.deep_view(), old(out).deep_view()),
    {
        let _ = out.send(BackendCommand::GetEmailForReply { id: self.email_id.clone() });
    }

    fn mark(
        &mut self,
        word: &str,
        on: bool,
        op: EmailWriteOp,
        cmd: BackendCommand,
        label: &str,
        out: &mut Outbox,
    )
        ensures
            (final(self).deep_view(), final(out).deep_view()) == marked(
                old(self).deep_view(),
                old(out).deep_view(),
                word@,
                on,
                op.deep_view(),
                cmd.deep_view(),
                label@,
            ),
    {
        let id: u64 = next_generated_op_id(&mut self.next_write_op_id);
        num_put(&mut self.pending_write_ops, id, op.dup());
        self.set_mark(word, on);
        if !out.send(cmd) {
            self.rollback_pending_write(&op);
            let _ = num_take(&mut self.pending_write_ops, id);
            self.status_message = Some(failure(label, "sending on a closed channel"));
        }
    }

    fn toggle_flag(&mut self, out: &mut Outbox)
        ensures
            (final(self).deep_view(), final(out).deep_view()) == flag_toggled(
                old(self).deep_view(),
                old(out).deep_view(),
            ),
    {
        let old_flagged = match &self.email {
            Some(e) => e.keywords.contains_key("$flagged"),
            None => {
                return ;
            },
        };
        let cmd = BackendCommand::SetEmailFlagged {
            op_id: self.next_write_op_id,
            id: self.email_id.clone(),
            flagged: !old_flagged,
        };
        self.mark(
            "$flagged",
            !old_flagged,
            EmailWriteOp::Flag { old_flagged },
            cmd,
            "Flag update",
            out,
        );
    }

    fn toggle_seen(&mut self, out: &mut Outbox)
        ensures
            (final(self).deep_view(), final(out).deep_view()) == seen_toggled(
                old(self).deep_view(),
                old(out).deep_view(),
            ),
    {
        let old_seen = match &self.email {
            Some(e) => e.keywords.contains_key("$seen"),
            None => {
                return ;
            },
        };
        let cmd = make_seen_command(self.next_write_op_id, self.email_id.clone(), !old_seen);
        self.mark(
            "$seen",
            !old_seen,
            EmailWriteOp::Seen { old_seen },
            cmd,
            "Read state update",
            out,
        );
    }

    fn missing_headers(&self) -> (r: Vec<String>)
        ensures
            r.deep_view() == headers_missing(self.deep_view()),
    {
        let mut ids: Vec<String> = no_items();
        if self.thread_id.is_some() {
            let ghost ev = self.thread_emails.deep_view();
            let ghost cv = self.raw_headers_cache.deep_view();
            let mut i: usize = 0;
            while i < self.thread_emails.len()
                invariant
                    i <= self.thread_emails@.len(),
                    ev == self.thread_emails.deep_view(),
                    cv == self.raw_headers_cache.deep_view(),
                    ids.deep_view() == unfetched(ev, cv, i as int),
                decreases self.thread_emails@.len() - i,
            {
                let e = at(self.thread_emails.as_slice(), i);
                if !self.raw_headers_cache.contains_key(e.id.as_str()) {
                    put(&mut ids, e.id.clone());
                }
                i = i + 1;
            }
        } else if !self.raw_headers_cache.contains_key(self.email_id.as_str()) {
            put(&mut ids, self.email_id.clone());
        }
        ids
    }

    fn toggle_headers(&mut self, out: &mut Outbox)
        ensures
            (final(self).deep_view(), final(out).deep_view()) == headers_toggled(
                old(self).deep_view(),
                old(out).deep_view(),
            ),
    {
        self.show_all_headers = !self.show_all_headers;
        if self.show_all_headers {
            let ids = self.missing_headers();
            if ids.len() == 0 {
                self.rerender_lines();
            } else {
                self.raw_headers_loading = true;
                self.status_message = Some("Loading raw headers...".to_owned());
                let ghost iv = ids.deep_view();
                let ghost start = out.deep_view();
                let mut i: usize = 0;
                while i < ids.len()
                    invariant
                        i <= ids@.len(),
                        iv == ids.deep_view(),
                        out.deep_view() == headers_asked(start, iv, i as int),
                    decreases ids@.len() - i,
                {
                    let id = at(ids.as_slice(), i).clone();
                    let _ = out.send(BackendCommand::GetEmailRawHeaders { id });
                    i = i + 1;
                }
            }
        } else {
            self.rerender_lines();
        }
    }

    fn toggle_html(&mut self)
        ensures
            final(self).deep_view() == html_toggled(old(self).deep_view()),
    {
        self.prefer_html = !self.prefer_html;
        self.status_message = Some(
            if self.prefer_html {
                "Showing HTML body".to_owned()
            } else {
                "Showing plain text body".to_owned()
            },
        );
        self.rerender_lines();
    }

    fn attach(&mut self, out: &mut Outbox)
        ensures
            (final(self).deep_view(), final(out).deep_view()) == attach_key(
                old(self).deep_view(),
                old(out).deep_view(),
            ),
    {
        let n: usize = self.attachment_count();
        if n == 0 {
            self.status_message = Some("No attachments".to_owned());
        } else if n == 1 {
            self.download_attachment(0, out);
        } else {
            self.attachment_picking = true;
            self.status_message = Some(
                text3("Download attachment [1-", dec(n as u64).as_str(), "]:"),
            );
        }
    }

    fn handle_pick_key(&mut self, key: Key, out: &mut Outbox)
        ensures
            (final(self).deep_view(), final(out).deep_view()) == pick_key(
                old(self).deep_view(),
                old(out).deep_view(),
                key,
            ),
    {
        self.attachment_picking = false;
        match key {
            Key::Char(c) => {
                if '1' <= c && c <= '9' {
                    self.download_attachment((c as u32 - '1' as u32) as usize, out);
                } else {
                    self.status_message = Some("Cancelled".to_owned());
                }
            },
            _ => {
                self.status_message = Some("Cancelled".to_owned());
            },
        }
    }

    fn handle_move_key(&mut self, key: Key, out: &mut Outbox) -> (r: ViewAction)
        ensures
            (final(self).deep_view(), final(out).deep_view(), r.deep_view()) == move_key(
                old(self).deep_view(),
                old(out).deep_view(),
                key,
            ),
    {
        match move_in_picker(key, self.move_cursor, self.mailboxes.len()) {
            Some(c) => {
                self.move_cursor = c;
                return ViewAction::Continue;
            },
            None => {},
        }
        if key == Key::Escape || key == Key::Char('q') {
            self.move_mode = false;
        } else if key == Key::Enter && self.move_cursor < self.mailboxes.len() {
            let target = at(self.mailboxes.as_slice(), self.move_cursor).id.clone();
            let cmd = self.make_move_command(target);
            self.move_mode = false;
            return self.leave(cmd, "Move", out);
        }
        ViewAction::Continue
    }

    fn handle_read_key(&mut self, key: Key, term_rows: u16, out: &mut Outbox) -> (r: ViewAction)
        ensures
            (final(self).deep_view(), final(out).deep_view(), r.deep_view()) == read_key(
                old(self).deep_view(),
                old(out).deep_view(),
                key,
                term_rows,
            ),
    {
        match scroll_pager(key, self.scroll, self.lines.len(), term_rows) {
            Some(s) => {
                self.scroll = s;
                return ViewAction::Continue;
            },
            None => {},
        }
        match key {
            Key::Char('q') => ViewAction::Pop,
            Key::Char('r') => {
                self.pending_reply_all = Some(false);
                self.ask_reply_data(out);
                ViewAction::Continue
            },
            Key::Char('R') => {
                self.pending_reply_all = Some(true);
                self.ask_reply_data(out);
                ViewAction::Continue
            },
            Key::Char('F') => {
                self.pending_forward = true;
                self.ask_reply_data(out);
                ViewAction::Continue
            },
            Key::Char('f') => {
                self.toggle_flag(out);
                ViewAction::Continue
            },
            Key::Char('u') => {
                self.toggle_seen(out);
                ViewAction::Continue
            },
            Key::Char('D') => self.expire_now(out),
            Key::Char('a') => {
                let folder = self.archive_folder.clone();
                self.move_to_folder(folder.as_str(), "Archive", out)
            },
            Key::Char('d') => {
                let folder = self.deleted_folder.clone();
                self.move_to_folder(folder.as_str(), "Delete", out)
            },
            Key::Char('m') => {
                if self.mailboxes.len() > 0 {
                    self.move_mode = true;
                    self.move_cursor = 0;
                }
                ViewAction::Continue
            },
            Key::Char('A') => {
                self.attach(out);
                ViewAction::Continue
            },
            Key::Char('c') => ViewAction::Compose(
                build_compose_draft(self.reply_from_address.as_str()),
            ),
            Key::Char('v') => {
                self.toggle_headers(out);
                ViewAction::Continue
            },
            Key::Char('h') => {
                self.toggle_html();
                ViewAction::Continue
            },
            Key::Char('?') => ViewAction::Push(AnyView::Help(HelpView::new())),
            _ => ViewAction::Continue,
        }
    }

    /// Takes a key.
    pub fn handle_key(&mut self, key: Key, term_rows: u16, out: &mut Outbox) -> (r: ViewAction)
        ensures
            (final(self).deep_view(), final(out).deep_view(), r.deep_view()) == email_view_key(
                old(self).deep_view(),
                old(out).deep_view(),
                key,
                term_rows,
            ),
    {
        if self.attachment_picking {
            self.handle_pick_key(key, out);
            return ViewAction::Continue;
        }
        if self.move_mode {
            return self.handle_move_key(key, out);
        }
        self.handle_read_key(key, term_rows, out)
    }

    fn take_thread(
        &mut self,
        thread_id: &String,
        result: &Result<Vec<Email>, String>,
        out: &mut Outbox,
    )
        ensures
            (final(self).deep_view(), final(out).deep_view()) == thread_come(
                old(self).deep_view(),
                old(out).deep_view(),
                thread_id@,
                result_view(*result),
            ),
    {
        self.loading = false;
        match result {
            Ok(emails) => {
                let ghost ev = emails.deep_view();
                self.thread_emails = emails.dup();
                if emails.len() > 0 {
                    let last = at(emails.as_slice(), emails.len() - 1);
                    self.email_id = last.id.clone();
                    self.email = Some(last.dup());
                }
                self.error = None;
                let p = self.thread_lines();
                self.set_page(p);
                let mut ids: Vec<String> = no_items();
                let mut i: usize = 0;
                while i < emails.len()
                    invariant
                        i <= emails@.len(),
                        ev == emails.deep_view(),
                        ids.deep_view() == unread_ids(ev, i as int),
                    decreases emails@.len() - i,
                {
                    let e = at(emails.as_slice(), i);
                    if !e.keywords.contains_key("$seen") {
                        put(&mut ids, e.id.clone());
                    }
                    i = i + 1;
                }
                if ids.len() > 0 {
                    let _ = out.send(
                        BackendCommand::MarkThreadRead {
                            thread_id: thread_id.clone(),
                            email_ids: ids,
                        },
                    );
                }
            },
            Err(e) => {
                self.error = Some(text2("Failed to load thread: ", e.as_str()));
            },
        }
    }

    fn take_email(&mut self, result: &Result<Email, String>)
        ensures
            final(self).deep_view() == email_come(old(self).deep_view(), result_view(*result)),
    {
        self.loading = false;
        match result {
            Ok(e) => {
                let p = self.page_of(e);
                self.set_page(p);
                self.email = Some(e.dup());
                self.error = None;
                let none: Vec<(u64, EmailWriteOp)> = no_items();
                self.pending_write_ops = none;
            },
            Err(e) => {
                self.error = Some(text2("Failed to load email: ", e.as_str()));
            },
        }
    }

    fn take_reply_data(&mut self, result: &Result<Email, String>)
        ensures
            final(self).deep_view() == reply_data_come(
                old(self).deep_view(),
                result_view(*result),
            ),
    {
        let reply_all = self.pending_reply_all;
        let forward = self.pending_forward;
        self.pending_reply_all = None;
        self.pending_forward = false;
        match result {
            Ok(e) => {
                self.email = Some(e.dup());
                if forward {
                    self.pending_compose = Some(
                        build_forward_draft(e, self.reply_from_address.as_str()),
                    );
                } else {
                    match reply_all {
                        Some(all) => {
                            self.pending_compose = Some(
                                build_reply_draft(e, all, self.reply_from_address.as_str()),
                            );
                        },
                        None => {},
                    }
                }
            },
            Err(e) => {
                self.error = Some(text2("Failed to load reply data: ", e.as_str()));
            },
        }
    }

    fn settle_change(
        &mut self,
        op_id: u64,
        action: EmailMutationAction,
        result: &Result<(), String>,
    ) -> (r: bool)
        ensures
            (final(self).deep_view(), r) == change_settled(
                old(self).deep_view(),
                op_id,
                action,
                result_view(*result),
            ),
    {
        let ghost before = self.deep_view();
        let taken = num_take(&mut self.pending_write_ops, op_id);
        assert(self.deep_view() == EmailViewV {
            pending_write_ops: num_without(before.pending_write_ops, op_id),
            ..before
        });
        match taken {
            Some(op) => {
                match result {
                    Ok(_) => {},
                    Err(e) => {
                        self.rollback_pending_write(&op);
                        self.status_message = Some(failure(name_of_action(action), e.as_str()));
                    },
                }
                true
            },
            None => false,
        }
    }

    fn headers_here(&self) -> (r: bool)
        ensures
            r == all_headers_here(self.deep_view()),
    {
        if self.thread_id.is_some() {
            let ghost v = self.deep_view();
            let mut i: usize = 0;
            while i < self.thread_emails.len()
                invariant
                    i <= self.thread_emails@.len(),
                    v == self.deep_view(),
                    v.thread_id is Some,
                    forall|j: int|
                        0 <= j < i ==> lookup(
                            v.raw_headers_cache,
                            (#[trigger] v.thread_emails[j]).id,
                        ) is Some,
                decreases self.thread_emails@.len() - i,
            {
                let e = at(self.thread_emails.as_slice(), i);
                if !self.raw_headers_cache.contains_key(e.id.as_str()) {
                    assert(lookup(v.raw_headers_cache, v.thread_emails[i as int].id) is None);
                    return false;
                }
                i = i + 1;
            }
            true
        } else {
            self.raw_headers_cache.contains_key(self.email_id.as_str())
        }
    }

    fn take_headers(&mut self, id: &String, result: &Result<String, String>)
        ensures
            final(self).deep_view() == headers_come(
                old(self).deep_view(),
                id@,
                result_view(*result),
            ),
    {
        match result {
            Ok(h) => {
                self.raw_headers_cache.insert(id.clone(), h.clone());
            },
            Err(e) => {
                self.status_message = Some(text2("Failed to load raw headers: ", e.as_str()));
            },
        }
        if self.headers_here() {
            self.raw_headers_loading = false;
            self.status_message = None;
            if self.show_all_headers {
                self.rerender_lines();
            }
        }
    }

    /// Takes a response; says whether it was for this view.
    pub fn on_response(&mut self, response: &BackendResponse, out: &mut Outbox) -> (r: bool)
        ensures
            (final(self).deep_view(), final(out).deep_view(), r) == email_view_response(
                old(self).deep_view(),
                old(out).deep_view(),
                response.deep_view(),
            ),
    {
        match response {
            BackendResponse::ThreadEmails { thread_id, emails } => {
                let mine = match &self.thread_id {
                    Some(t) => same(t.as_str(), thread_id.as_str()),
                    None => false,
                };
                if mine {
                    self.take_thread(thread_id, emails, out);
                }
                mine
            },
            BackendResponse::EmailBody { id, result } => {
                if same(id.as_str(), self.email_id.as_str()) {
                    self.take_email(result);
                    true
                } else {
                    false
                }
            },
            BackendResponse::EmailForReply { id, result } => {
                if same(id.as_str(), self.email_id.as_str()) {
                    self.take_reply_data(result);
                    true
                } else {
                    false
                }
            },
            BackendResponse::EmailMutation { op_id, id, action, result } => {
                if same(id.as_str(), self.email_id.as_str()) {
                    self.settle_change(*op_id, *action, result)
                } else {
                    false
                }
            },
            BackendResponse::AttachmentDownloaded { name, result } => {
                match result {
                    Ok(path) => {
                        self.status_message = Some(text2("Saved: ", path.as_str()));
                        self.pending_open = Some((name.clone(), path.clone()));
                    },
                    Err(e) => {
                        self.status_message = Some(text2("Download failed: ", e.as_str()));
                    },
                }
                true
            },
            BackendResponse::EmailRawHeaders { id, result } => {
                self.take_headers(id, result);
                true
            },
            _ => false,
        }
    }

    /// Hands out the name and the path of a saved attachment that is to be opened.
    pub fn take_open_request(&mut self) -> (r: Option<(String, String)>)
        ensures
            r.deep_view() == old(self).deep_view().pending_open,
            final(self).deep_view() == (EmailViewV {
                pending_open: None,
                ..old(self).deep_view()
            }),
    {
        let r = self.pending_open.dup();
        self.pending_open = None;
        r
    }

    /// Says that a saved attachment could not be opened.
    pub fn open_failed(&mut self, name: &str, e: &str)
        ensures
            final(self).deep_view() == (EmailViewV {
                status_message: Some("Saved "@ + name@ + " (could not open: "@ + e@ + ")"@),
                ..old(self).deep_view()
            }),
    {
        let mut s = text3("Saved ", name, " (could not open: ");
        s.append(e);
        s.append(")");
        self.status_message = Some(s);
    }

    /// Says what is to be done after what happened before: a draft that is ready is
    /// edited.
    pub fn take_pending_action(&mut self) -> (r: Option<ViewAction>)
        ensures
            final(self).deep_view() == (EmailViewV {
                pending_compose: None,
                ..old(self).deep_view()
            }),
            r.deep_view() == (match old(self).deep_view().pending_compose {
                Some(draft) => Some(ViewActionV::Compose(draft)),
                None => None,
            }),
    {
        let r = match &self.pending_compose {
            Some(draft) => Some(ViewAction::Compose(draft.clone())),
            None => None,
        };
        self.pending_compose = None;
        r
    }

    fn show_line(&self, term: &mut Terminal, i: usize, row: u16) -> (r: u16)
        requires
            i < self.lines@.len(),
            row + 1 < old(term).rows,
        ensures
            (final(term).deep_view(), r) == line_shown(
                (old(term).deep_view(), row),
                kind_at(self.deep_view(), i as int),
                self.deep_view().lines[i as int],
            ),
            final(term).rows == old(term).rows,
    {
        let ghost start = term.deep_view();
        let line = at(self.lines.as_slice(), i);
        let kind = if i < self.line_kinds.len() {
            self.line_kinds[i]
        } else {
            LineKind::Body
        };
        match kind {
            LineKind::Header => {
                term.write_row_header(row + 1, line.as_str());
                row + 1
            },
            LineKind::Separator => {
                term.move_to(row + 1, 1);
                term.set_status();
                term.write_str(repeat(' ', term.cols as usize).as_str());
                term.reset_attr();
                row + 1
            },
            LineKind::Body => {
                if line.as_str().is_empty() {
                    term.move_to(row + 1, 1);
                    return row + 1;
                }
                let segments = wrap_line(line.as_str(), term.cols as usize);
                let ghost sv = segments.deep_view();
                let mut at_row: u16 = row;
                let mut k: usize = 0;
                while k < segments.len()
                    invariant
                        k <= segments@.len(),
                        sv == segments.deep_view(),
                        (term.deep_view(), at_row) == segments_shown((start, row), sv, k as int),
                        term.rows == start.rows,
                        at_row < term.rows,
                    decreases segments@.len() - k,
                {
                    if at_row < term.rows - 1 {
                        term.write_row(at_row + 1, at(segments.as_slice(), k).as_str());
                        at_row = at_row + 1;
                    }
                    k = k + 1;
                }
                at_row
            },
        }
    }

    fn show_lines(&self, term: &mut Terminal)
        ensures
            final(term).deep_view() == lines_shown(
                old(term).deep_view(),
                self.deep_view(),
                lines_from(self.deep_view()),
            ).0,
    {
        let ghost v = self.deep_view();
        let ghost start = term.deep_view();
        let n: usize = if self.scroll < self.lines.len() {
            self.lines.len() - self.scroll
        } else {
            0
        };
        let visible: usize = rows_below(term.rows, 1);
        let mut row: u16 = 0;
        let mut i: usize = 0;
        while i < n && (row as usize) < visible
            invariant
                i <= n,
                v == self.deep_view(),
                n == lines_from(v),
                n <= self.lines@.len(),
                self.scroll + n <= self.lines@.len() || n == 0,
                visible == page_rows(start.rows, 1),
                term.rows == start.rows,
                self.lines@.len() <= usize::MAX,
                (term.deep_view(), row) == lines_shown(start, v, i as int),
            decreases n - i,
        {
            row = self.show_line(term, self.scroll + i, row);
            i = i + 1;
        }
        proof {
            lemma_full_screen(start, v, i as int, n as int);
        }
    }

    fn status(&self) -> (r: String)
        ensures
            r@ == email_view_status(self.deep_view()),
    {
        let mut s = " line ".to_owned();
        s.append(dec(self.scroll.saturating_add(1) as u64).as_str());
        s.append("/");
        s.append(dec(self.lines.len() as u64).as_str());
        if self.attachment_picking {
            s.append(" | Pick attachment [1-");
            s.append(dec(self.attachment_count() as u64).as_str());
            s.append("] or any key to cancel");
        } else if self.pending_reply_all.is_some() || self.pending_forward {
            s.append(" | Loading reply data... | q:back");
        } else {
            s.append(" | q:back n/j:down p/k:up r:reply R:reply-all F:forward");
            s.append(
                if self.attachment_count() > 0 {
                    " A:attach"
                } else {
                    ""
                },
            );
            s.append(
                if self.can_expire_now {
                    " D:expire"
                } else {
                    ""
                },
            );
            s.append(" a:archive d:delete m:move ?:help");
        }
        s
    }

    /// Shows the view.
    pub fn render(&self, term: &mut Terminal)
        ensures
            final(term).deep_view() == email_view_shown(old(term).deep_view(), self.deep_view()),
    {
        term.clear();
        if self.loading {
            term.write_row(
                1,
                if self.thread_id.is_some() {
                    "Loading thread..."
                } else {
                    "Loading email..."
                },
            );
            term.write_status(" Loading... | q:back");
            return ;
        }
        match &self.error {
            Some(e) => {
                term.write_row(1, e.as_str());
                term.write_status(" q:back");
                return ;
            },
            None => {},
        }
        if self.move_mode {
            render_picker(term, &self.mailboxes, self.move_cursor, 1);
            term.write_status(picker_text(self.move_cursor, self.mailboxes.len()).as_str());
            return ;
        }
        self.show_lines(term);
        term.write_status(status_with(&self.status_message, self.status()).as_str());
    }
}

// ---------------------------------------------------------------------------
// The screen
// ---------------------------------------------------------------------------

/// The kind of a line.
pub open spec fn kind_at(v: EmailViewV, i: int) -> LineKind {
    if i < v.line_kinds.len() {
        v.line_kinds[i]
    } else {
        LineKind::Body
    }
}

/// The terminal and the number of rows used after the first `k` pieces of a line,
/// as far as there is room above the status.
pub open spec fn segments_shown(st: (TerminalV, u16), segments: Seq<Seq<char>>, k: int) -> (
    TerminalV,
    u16,
)
    decreases k,
{
    if k <= 0 {
        st
    } else {
        let before = segments_shown(st, segments, k - 1);
        if before.1 < before.0.rows - 1 {
            (
                row_text(before.0, (before.1 + 1) as u16, segments[k - 1]),
                (before.1 + 1) as u16,
            )
        } else {
            before
        }
    }
}

/// The terminal and the number of rows used after a line: headings are cut off,
/// the text of a message is wrapped, and a bar stands between messages.
pub open spec fn line_shown(st: (TerminalV, u16), kind: LineKind, line: Seq<char>) -> (
    TerminalV,
    u16,
) {
    let t = st.0;
    let row = (st.1 + 1) as u16;
    match kind {
        LineKind::Header => (row_header(t, row, line), row),
        LineKind::Separator => (
            plain(written(in_status(moved(t, row, 1)), repeated(' ', t.cols as nat))),
            row,
        ),
        LineKind::Body => if line.len() == 0 {
            (moved(t, row, 1), row)
        } else {
            let segments = wrapped(line, t.cols as nat);
            segments_shown(st, segments, segments.len() as int)
        },
    }
}

/// The number of lines from the first one that is shown.
pub open spec fn lines_from(v: EmailViewV) -> int {
    if v.scroll < v.lines.len() {
        v.lines.len() - v.scroll
    } else {
        0
    }
}

/// The terminal and the number of rows used after `k` lines from the first one that
/// is shown, as far as there is room above the status.
pub open spec fn lines_shown(t: TerminalV, v: EmailViewV, k: int) -> (TerminalV, u16)
    decreases k,
{
    if k <= 0 {
        (t, 0)
    } else {
        let before = lines_shown(t, v, k - 1);
        if before.1 < page_rows(t.rows, 1) {
            line_shown(before, kind_at(v, v.scroll + k - 1), v.lines[v.scroll + k - 1])
        } else {
            before
        }
    }
}

proof fn lemma_full_screen(t: TerminalV, v: EmailViewV, i: int, n: int)
    requires
        0 <= i <= n,
        i < n ==> lines_shown(t, v, i).1 >= page_rows(t.rows, 1),
    ensures
        lines_shown(t, v, n) == lines_shown(t, v, i),
    decreases n - i,
{
    if i < n {
        assert(lines_shown(t, v, i + 1) == lines_shown(t, v, i));
        lemma_full_screen(t, v, i + 1, n);
    }
}

/// The status.
pub open spec fn email_view_status(v: EmailViewV) -> Seq<char> {
    let place = " line "@ + decimal(plus_one(v.scroll) as nat) + "/"@ + decimal(v.lines.len());
    if v.attachment_picking {
        place + " | Pick attachment [1-"@ + decimal(attachments_in(v)) + "] or any key to cancel"@
    } else if v.pending_reply_all is Some || v.pending_forward {
        place + " | Loading reply data... | q:back"@
    } else {
        place + " | q:back n/j:down p/k:up r:reply R:reply-all F:forward"@ + (if attachments_in(v)
            > 0 {
            " A:attach"@
        } else {
            ""@
        }) + (if v.can_expire_now {
            " D:expire"@
        } else {
            ""@
        }) + " a:archive d:delete m:move ?:help"@
    }
}

/// The terminal after the row of a mailbox that can be picked.
pub open spec fn picker_row(t: TerminalV, row: u16, m: MailboxV, on: bool) -> TerminalV {
    let a = moved(t, row, 1);
    let b = if on {
        selected(a)
    } else {
        a
    };
    plain(clipped(b, "  "@ + m.name, t.cols))
}

/// The terminal after the first `k` rows of mailboxes from `start` below `top`.
pub open spec fn picker_rows(
    t: TerminalV,
    mailboxes: Seq<MailboxV>,
    cursor: usize,
    top: u16,
    start: usize,
    k: nat,
) -> TerminalV
    decreases k,
{
    if k == 0 {
        t
    } else {
        picker_row(
            picker_rows(t, mailboxes, cursor, top, start, (k - 1) as nat),
            (top + k) as u16,
            mailboxes[start + k - 1],
            start + k - 1 == cursor,
        )
    }
}

/// The terminal after the mailboxes that can be picked, with a heading on row
/// `top`.
pub open spec fn picker_shown(
    t: TerminalV,
    mailboxes: Seq<MailboxV>,
    cursor: usize,
    top: u16,
) -> TerminalV {
    let taken = (top + 2) as u16;
    let start = window_start(cursor, page_rows(t.rows, taken as int));
    picker_rows(
        row_header(t, top, "Move to mailbox:"@),
        mailboxes,
        cursor,
        top,
        start,
        shown_items(start, mailboxes.len(), t.rows, taken),
    )
}

/// Shows the mailboxes that can be picked, with a heading on row `top`.
pub fn render_picker(term: &mut Terminal, mailboxes: &Vec<Mailbox>, cursor: usize, top: u16)
    requires
        1 <= top <= 3,
    ensures
        final(term).deep_view() == picker_shown(
            old(term).deep_view(),
            mailboxes.deep_view(),
            cursor,
            top,
        ),
{
    let ghost mv = mailboxes.deep_view();
    let start: usize = window_start_of(cursor, rows_below(term.rows, top + 2));
    let n: u16 = count_items(start, mailboxes.len(), term.rows, top + 2);
    term.write_row_header(top, "Move to mailbox:");
    let ghost t = term.deep_view();
    let mut i: u16 = 0;
    while i < n
        invariant
            i <= n,
            1 <= top <= 3,
            n + top + 2 <= u16::MAX || n == 0,
            mv == mailboxes.deep_view(),
            mailboxes@.len() <= usize::MAX,
            n == 0 || start + n <= mailboxes@.len(),
            term.deep_view() == picker_rows(t, mv, cursor, top, start, i as nat),
            term.cols == t.cols,
        decreases n - i,
    {
        let at_row: usize = start + i as usize;
        let m = at(mailboxes.as_slice(), at_row);
        i = i + 1;
        term.move_to(top + i, 1);
        if at_row == cursor {
            term.set_selection();
        }
        term.write_truncated(text2("  ", m.name.as_str()).as_str(), term.cols);
        term.reset_attr();
    }
}

/// The status while a mailbox is picked.
pub open spec fn picker_status(cursor: usize, n: nat) -> Seq<char> {
    " "@ + decimal(plus_one(cursor) as nat) + "/"@ + decimal(n)
        + " | n/p:navigate RET:move Esc:cancel"@
}

/// The status while a mailbox is picked.
pub fn picker_text(cursor: usize, n: usize) -> (r: String)
    ensures
        r@ == picker_status(cursor, n as nat),
{
    let mut s = " ".to_owned();
    s.append(dec(cursor.saturating_add(1) as u64).as_str());
    s.append("/");
    s.append(dec(n as u64).as_str());
    s.append(" | n/p:navigate RET:move Esc:cancel");
    s
}

/// The terminal after the view.
pub open spec fn email_view_shown(t: TerminalV, v: EmailViewV) -> TerminalV {
    let c = cleared(t);
    if v.loading {
        status_line(
            row_text(
                c,
                1,
                if v.thread_id is Some {
                    "Loading thread..."@
                } else {
                    "Loading email..."@
                },
            ),
            " Loading... | q:back"@,
        )
    } else {
        match v.error {
            Some(e) => status_line(row_text(c, 1, e), " q:back"@),
            None => if v.move_mode {
                status_line(
                    picker_shown(c, v.mailboxes, v.move_cursor, 1),
                    picker_status(v.move_cursor, v.mailboxes.len()),
                )
            } else {
                status_line(
                    lines_shown(c, v, lines_from(v)).0,
                    with_status(v.status_message, email_view_status(v)),
                )
            },
        }
    }
}

// ---------------------------------------------------------------------------
// Laws
// ---------------------------------------------------------------------------

/// No key leaves two changes under the same number.
#[verifier::spinoff_prover]
pub proof fn law_key_numbers_are_distinct(v: EmailViewV, o: OutboxV, key: Key, rows: u16)
    requires
        numbers_distinct(v.pending_write_ops),
    ensures
        numbers_distinct(email_view_key(v, o, key, rows).0.pending_write_ops),
{
    broadcast use lemma_numbers_stay_distinct;

}

/// No response leaves two changes under the same number.
#[verifier::spinoff_prover]
pub proof fn law_response_numbers_are_distinct(
    v: EmailViewV,
    o: OutboxV,
    response: BackendResponseV,
)
    requires
        numbers_distinct(v.pending_write_ops),
    ensures
        numbers_distinct(email_view_response(v, o, response).0.pending_write_ops),
{
    match response {
        BackendResponseV::EmailMutation { op_id, .. } => {
            lemma_taken_stay_distinct(v.pending_write_ops, op_id);
        },
        _ => {},
    }
}

/// A flag or a reading mark that the server refuses is shown as it was before, and
/// so is everything else of the message; nothing stays pending of it, and the reason
/// is told.
pub proof fn law_refused_change_is_undone(
    v: EmailViewV,
    o: OutboxV,
    action: EmailMutationAction,
    e: Seq<char>,
)
    requires
        o.open,
        v.email is Some,
        keywords_true(v.email->0),
        numbers_distinct(v.pending_write_ops),
    ensures
        ({
            let (f, told) = change_settled(
                flag_toggled(v, o).0,
                v.next_write_op_id,
                action,
                Err(e),
            );
            &&& told
            &&& f.email is Some && same_email(f.email->0, v.email->0)
            &&& num_lookup(f.pending_write_ops, v.next_write_op_id) is None
            &&& num_lookup(v.pending_write_ops, v.next_write_op_id) is None
                ==> f.pending_write_ops == v.pending_write_ops
            &&& f.status_message == Some(with_error(action_name(action), e))
        }),
        ({
            let (s, told) = change_settled(
                seen_toggled(v, o).0,
                v.next_write_op_id,
                action,
                Err(e),
            );
            &&& told
            &&& s.email is Some && same_email(s.email->0, v.email->0)
            &&& num_lookup(s.pending_write_ops, v.next_write_op_id) is None
            &&& num_lookup(v.pending_write_ops, v.next_write_op_id) is None
                ==> s.pending_write_ops == v.pending_write_ops
            &&& s.status_message == Some(with_error(action_name(action), e))
        }),
{
    let k = v.email->0.keywords;
    let was_flagged = lookup(k, "$flagged"@) is Some;
    let was_seen = lookup(k, "$seen"@) is Some;
    let flag = EmailWriteOpV::Flag { old_flagged: was_flagged };
    let seen = EmailWriteOpV::Seen { old_seen: was_seen };
    law_num_put_then_take(v.pending_write_ops, v.next_write_op_id, flag);
    law_num_put_then_take(v.pending_write_ops, v.next_write_op_id, seen);
    lemma_mark_and_back(v.email->0, "$flagged"@);
    lemma_mark_and_back(v.email->0, "$seen"@);
}

} // verus!
