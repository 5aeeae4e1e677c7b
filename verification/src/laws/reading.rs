//! Reading mail: which text of a message is shown, what stands on its page and in its
//! line of a list, and what the console makes of keys.

use vstd::prelude::*;

use crate::backend::{BackendCommandV, BackendResponseV, RetentionCandidateV};
use crate::compose::{body_text, plain_text, valued_part};
use crate::config::AccountConfigV;
use crate::data::lookup;
use crate::jmap::types::{BodyPartV, EmailV};
use crate::rules::shown_addresses;
use crate::text::{ascii_lower, has, lines_of, occurs_at, rfind, rfind_from};
use crate::tui::console::{acted, ConsoleV};
use crate::tui::html::terminal_text;
use crate::tui::input::{first_byte, next_byte, Key, KeyState, KeyStep};
use crate::tui::layout::{truncated, wrapped, wrapped_from};
use crate::tui::views::email_list::email_line;
use crate::tui::views::email_view::{
    email_page, email_view_key, email_view_response, headers_asked, shown_body, unread_ids,
    with_attachments, with_headers, with_lines, EmailViewV, LineKind, PageV,
};
use crate::tui::views::retention_preview::preview_of;
use crate::tui::views::thread_view::{cross_folder_line, thread_line};
use crate::tui::views::{list_date, list_marks, list_sender, AnyViewV, OutboxV, ViewActionV};

verus! {

// ---------------------------------------------------------------------------
// The text of a message
// ---------------------------------------------------------------------------

/// Whether the part at `i` is the first of some whose text the message holds.
pub open spec fn first_held(ps: Seq<BodyPartV>, e: EmailV, i: int) -> bool {
    &&& 0 <= i < ps.len()
    &&& lookup(e.body_values, ps[i].part_id) is Some
    &&& forall|j: int| 0 <= j < i ==> lookup(e.body_values, (#[trigger] ps[j]).part_id) is None
}

/// Whether the message holds the text of none of some parts.
pub open spec fn none_held(parts: Option<Seq<BodyPartV>>, e: EmailV) -> bool {
    match parts {
        Some(ps) => forall|j: int|
            0 <= j < ps.len() ==> lookup(e.body_values, (#[trigger] ps[j]).part_id) is None,
        None => true,
    }
}

proof fn lemma_first_held(ps: Seq<BodyPartV>, e: EmailV, i: int, k: int)
    requires
        0 <= k <= i,
        first_held(ps, e, i),
    ensures
        valued_part(ps, e, k) == i,
    decreases i - k,
{
    if k < i {
        assert(lookup(e.body_values, ps[k].part_id) is None);
        lemma_first_held(ps, e, i, k + 1);
    }
}

proof fn lemma_none_held(ps: Seq<BodyPartV>, e: EmailV, k: int)
    requires
        0 <= k <= ps.len(),
        none_held(Some(ps), e),
    ensures
        valued_part(ps, e, k) == ps.len(),
    decreases ps.len() - k,
{
    if k < ps.len() {
        assert(lookup(e.body_values, ps[k].part_id) is None);
        lemma_none_held(ps, e, k + 1);
    }
}

/// Whether a text is HTML by what its part says or by what it looks like.
pub open spec fn is_html(part: BodyPartV, text: Seq<char>) -> bool {
    let l = ascii_lower(text);
    ||| part.content_type is Some && ascii_lower(part.content_type->0) == ascii_lower("text/html"@)
    ||| has(l, "<!doctype"@) || has(l, "<html"@) || has(l, "<head"@) || has(l, "<body"@) || has(
        l,
        "<style"@,
    ) || has(l, "<table"@) || has(l, "<div"@)
}

/// The text of a message is that of its first text part that came, made plain if it is
/// HTML; where no text part came, its first HTML part that came is made plain; where
/// there is none either, it is the preview. What is shown is the same, with the HTML
/// first where that is preferred and shown as on a terminal.
pub proof fn law_first_part_that_came_is_the_text(
    e: EmailV,
    ps: Seq<BodyPartV>,
    hs: Seq<BodyPartV>,
    i: int,
    j: int,
)
    ensures
        e.text_body == Some(ps) && first_held(ps, e, i) ==> ({
            let value = lookup(e.body_values, ps[i].part_id)->0.value;
            &&& !is_html(ps[i], value) ==> body_text(e) == value && shown_body(e, false) == value
            &&& is_html(ps[i], value) ==> body_text(e) == plain_text(value) && shown_body(e, false)
                == terminal_text(value)
        }),
        none_held(e.text_body, e) && e.html_body == Some(hs) && first_held(hs, e, j) ==> ({
            let value = lookup(e.body_values, hs[j].part_id)->0.value;
            body_text(e) == plain_text(value) && shown_body(e, false) == terminal_text(value)
        }),
        e.html_body == Some(hs) && first_held(hs, e, j) ==> shown_body(e, true) == terminal_text(
            lookup(e.body_values, hs[j].part_id)->0.value,
        ),
        none_held(e.html_body, e) ==> shown_body(e, true) == shown_body(e, false),
        none_held(e.text_body, e) && none_held(e.html_body, e) ==> ({
            let p = if e.preview is Some {
                e.preview->0
            } else {
                "(no body)"@
            };
            body_text(e) == p && shown_body(e, false) == p
        }),
{
    if e.text_body == Some(ps) && first_held(ps, e, i) {
        lemma_first_held(ps, e, i, 0);
    }
    if e.html_body == Some(hs) && first_held(hs, e, j) {
        lemma_first_held(hs, e, j, 0);
    }
    if none_held(e.text_body, e) && e.text_body is Some {
        lemma_none_held(e.text_body->0, e, 0);
    }
    if none_held(e.html_body, e) && e.html_body is Some {
        lemma_none_held(e.html_body->0, e, 0);
    }
}

// ---------------------------------------------------------------------------
// The page of a message
// ---------------------------------------------------------------------------

proof fn lemma_with_lines(p: PageV, kind: LineKind, texts: Seq<Seq<char>>, k: int)
    requires
        0 <= k <= texts.len(),
    ensures
        with_lines(p, kind, texts, k).lines == p.lines + texts.take(k),
    decreases k,
{
    if k > 0 {
        lemma_with_lines(p, kind, texts, k - 1);
        assert(texts.take(k) =~= texts.take(k - 1).push(texts[k - 1]));
        assert((p.lines + texts.take(k - 1)).push(texts[k - 1]) =~= p.lines + texts.take(k));
    } else {
        assert(p.lines + texts.take(0) =~= p.lines);
    }
}

/// The page of a message ends with the lines of its text, behind an empty line, and tells
/// its senders, its recipients, its date and its subject before it; where the headers are
/// shown as they came, it begins with their lines.
pub proof fn law_page_shows_the_message(e: EmailV, raw: Seq<char>, html: bool)
    ensures
        ({
            let text = lines_of(shown_body(e, html));
            let head = with_attachments(
                with_headers(PageV { lines: Seq::empty(), kinds: Seq::empty() }, e, None),
                e.attachments,
            ).lines;
            let p = email_page(e, None, html).lines;
            &&& p == head.push(""@) + text
            &&& e.from is Some ==> with_headers(
                PageV { lines: Seq::empty(), kinds: Seq::empty() },
                e,
                None,
            ).lines.contains("From: "@ + shown_addresses(e.from->0))
            &&& e.to is Some ==> with_headers(
                PageV { lines: Seq::empty(), kinds: Seq::empty() },
                e,
                None,
            ).lines.contains("To: "@ + shown_addresses(e.to->0))
            &&& e.received_at is Some ==> with_headers(
                PageV { lines: Seq::empty(), kinds: Seq::empty() },
                e,
                None,
            ).lines.contains("Date: "@ + e.received_at->0)
            &&& e.subject is Some ==> with_headers(
                PageV { lines: Seq::empty(), kinds: Seq::empty() },
                e,
                None,
            ).lines.contains("Subject: "@ + e.subject->0)
            &&& with_headers(
                PageV { lines: Seq::empty(), kinds: Seq::empty() },
                e,
                Some(raw),
            ).lines == lines_of(raw)
        }),
{
    let none = PageV { lines: Seq::empty(), kinds: Seq::empty() };
    let text = lines_of(shown_body(e, html));
    let h = with_headers(none, e, None);
    let a = with_attachments(h, e.attachments);
    let b = crate::tui::views::email_view::with_line(a, LineKind::Body, ""@);
    lemma_with_lines(b, LineKind::Body, text, text.len() as int);
    assert(text.take(text.len() as int) =~= text);
    let rl = lines_of(raw);
    lemma_with_lines(none, LineKind::Header, rl, rl.len() as int);
    assert(rl.take(rl.len() as int) =~= rl);
    assert(Seq::<Seq<char>>::empty() + rl =~= rl);
    let n = h.lines.len() as int;
    assert(h.lines[n - 1] == "Subject: "@ + crate::tui::views::list_subject(e));
    if e.from is Some {
        assert(h.lines[0] == "From: "@ + shown_addresses(e.from->0));
    }
    if e.to is Some {
        let t = if e.from is Some {
            1int
        } else {
            0
        };
        assert(h.lines[t] == "To: "@ + shown_addresses(e.to->0));
    }
    if e.received_at is Some {
        assert(h.lines[n - 2] == "Date: "@ + e.received_at->0);
    }
}

/// A message that comes for a view is shown in it; one that comes for another view is
/// not. Of a thread that comes, the last message counts as the one that is shown, and the
/// messages that are unread are marked as read, all at once.
pub proof fn law_view_shows_what_came(
    v: EmailViewV,
    o: OutboxV,
    e: EmailV,
    id: Seq<char>,
    thread_id: Seq<char>,
    emails: Seq<EmailV>,
)
    requires
        o.open,
    ensures
        ({
            let (w, p, mine) = email_view_response(
                v,
                o,
                BackendResponseV::EmailBody { id, result: Ok(e) },
            );
            let raw = if v.show_all_headers {
                lookup(v.raw_headers_cache, e.id)
            } else {
                None
            };
            &&& mine == (id == v.email_id)
            &&& mine ==> w.email == Some(e) && w.lines == email_page(e, raw, v.prefer_html).lines
                && !w.loading && p == o
            &&& !mine ==> w == v && p == o
        }),
        ({
            let come = BackendResponseV::ThreadEmails { thread_id, emails: Ok(emails) };
            let (w, p, mine) = email_view_response(v, o, come);
            let unread = emails.filter(|x: EmailV| lookup(x.keywords, "$seen"@) is None).map_values(
                |x: EmailV| x.id,
            );
            &&& mine == (v.thread_id == Some(thread_id))
            &&& mine && emails.len() > 0 ==> w.email == Some(emails.last()) && w.thread_emails
                == emails
            &&& mine && unread.len() > 0 ==> p.sent == o.sent.push(
                BackendCommandV::MarkThreadRead { thread_id, email_ids: unread },
            )
            &&& mine && unread.len() == 0 ==> p == o
            &&& !mine ==> w == v && p == o
        }),
{
    lemma_unread_ids(emails, emails.len() as int);
    assert(emails.take(emails.len() as int) =~= emails);
}

proof fn lemma_unread_ids(emails: Seq<EmailV>, k: int)
    requires
        0 <= k <= emails.len(),
    ensures
        unread_ids(emails, k) == emails.take(k).filter(
            |x: EmailV| lookup(x.keywords, "$seen"@) is None,
        ).map_values(|x: EmailV| x.id),
    decreases k,
{
    let unread = |x: EmailV| lookup(x.keywords, "$seen"@) is None;
    let ids = |x: EmailV| x.id;
    reveal(Seq::filter);
    if k > 0 {
        lemma_unread_ids(emails, k - 1);
        assert(emails.take(k).drop_last() =~= emails.take(k - 1));
        assert(emails.take(k).last() == emails[k - 1]);
        let before = emails.take(k - 1).filter(unread);
        assert(before.push(emails[k - 1]).map_values(ids) =~= before.map_values(ids).push(
            emails[k - 1].id,
        ));
    } else {
        assert(emails.take(0) =~= Seq::empty());
        assert(Seq::<EmailV>::empty().filter(unread).map_values(ids) =~= Seq::empty());
    }
}

/// `A` has the only attachment saved at once; of several, the one whose number is typed
/// is saved. The attachment is asked for by its file, under its name and type.
pub proof fn law_picked_attachment_is_saved(
    v: EmailViewV,
    o: OutboxV,
    rows: u16,
    e: EmailV,
    list: Seq<BodyPartV>,
    i: int,
    blob: Seq<char>,
    name: Seq<char>,
    content: Seq<char>,
)
    requires
        !v.attachment_picking,
        !v.move_mode,
        o.open,
        v.email == Some(e),
        e.attachments == Some(list),
        0 <= i < list.len(),
        i < 9,
        list[i].blob_id == Some(blob),
        list[i].name == Some(name),
        list[i].content_type == Some(content),
    ensures
        ({
            let save = BackendCommandV::DownloadAttachment {
                blob_id: blob,
                name,
                content_type: content,
            };
            let (w, p, _) = email_view_key(v, o, Key::Char('A'), rows);
            let digit = ('1' as int + i) as char;
            &&& list.len() == 1 ==> p.sent == o.sent.push(save)
            &&& list.len() > 1 ==> p == o && w.attachment_picking && email_view_key(
                w,
                p,
                Key::Char(digit),
                rows,
            ).1.sent == o.sent.push(save)
        }),
{
}

// ---------------------------------------------------------------------------
// Lists
// ---------------------------------------------------------------------------

/// The line of a message begins with a mark if it is unread and one if it is flagged.
pub proof fn law_line_shows_the_marks(e: EmailV, width: u16, counts: Option<(usize, usize)>)
    ensures
        ({
            let line = email_line(e, width, counts);
            &&& line.len() >= 3
            &&& line[1] == 'N' <==> lookup(e.keywords, "$seen"@) is None
            &&& line[2] == 'F' <==> lookup(e.keywords, "$flagged"@) is Some
        }),
{
    reveal_strlit("N");
    reveal_strlit("F");
    reveal_strlit(" ");
    let marks = list_marks(e);
    assert("N"@.len() == 1 && "F"@.len() == 1 && " "@.len() == 1);
    assert(marks.len() == 2);
    assert(marks[0] == 'N' <==> lookup(e.keywords, "$seen"@) is None);
    assert(marks[1] == 'F' <==> lookup(e.keywords, "$flagged"@) is Some);
    let line = email_line(e, width, counts);
    assert(line[1] == marks[0]);
    assert(line[2] == marks[1]);
}

/// The preview of an expiry has a line for each message that would go, in order, with the
/// policy, the day, the mailbox, the sender and the subject.
pub proof fn law_preview_has_a_line_for_each(cs: Seq<RetentionCandidateV>, i: int)
    requires
        0 <= i < cs.len(),
    ensures
        ({
            let p = preview_of(cs);
            &&& p.lines.len() == cs.len() + 2
            &&& p.lines[i + 2] == "["@ + cs[i].policy + "] "@ + cs[i].received_at + " | "@
                + cs[i].mailbox + " | "@ + cs[i].from + " | "@ + cs[i].subject
            &&& p.scroll == 0
        }),
{
}

// ---------------------------------------------------------------------------
// Wrapping
// ---------------------------------------------------------------------------

/// The lines one after the other.
pub open spec fn laid_end_to_end(ls: Seq<Seq<char>>) -> Seq<char>
    decreases ls.len(),
{
    if ls.len() == 0 {
        Seq::empty()
    } else {
        ls[0] + laid_end_to_end(ls.subrange(1, ls.len() as int))
    }
}

/// A text without its spaces.
pub open spec fn spaceless(s: Seq<char>) -> Seq<char> {
    s.filter(|c: char| c != ' ')
}

proof fn lemma_laid(a: Seq<char>, ls: Seq<Seq<char>>)
    ensures
        laid_end_to_end(seq![a] + ls) == a + laid_end_to_end(ls),
{
    let all = seq![a] + ls;
    assert(all.subrange(1, all.len() as int) =~= ls);
}

proof fn lemma_wrapped_from(s: Seq<char>, width: nat, i: int)
    requires
        0 <= i <= s.len(),
        width > 0,
    ensures
        spaceless(laid_end_to_end(wrapped_from(s, width, i))) == spaceless(s.skip(i)),
    decreases s.len() - i,
{
    let keep = |c: char| c != ' ';
    if i >= s.len() {
        assert(s.skip(i) =~= Seq::empty());
        assert(laid_end_to_end(wrapped_from(s, width, i)) =~= Seq::empty());
    } else if s.len() - i <= width {
        let a = s.subrange(i, s.len() as int);
        lemma_laid(a, Seq::empty());
        assert(seq![a] + Seq::<Seq<char>>::empty() =~= seq![a]);
        assert(a + Seq::<char>::empty() =~= s.skip(i));
    } else {
        let segment = s.subrange(i, i + width);
        let space = seq![' '];
        lemma_rfind_some(segment, ' ');
        match rfind(segment, space) {
            Some(p) => {
                let a = s.subrange(i, i + p);
                lemma_wrapped_from(s, width, i + p + 1);
                lemma_laid(a, wrapped_from(s, width, i + p + 1));
                let rest = s.skip(i + p + 1);
                assert(s[i + p] == segment[p]);
                assert(s.skip(i) =~= a + (space + rest));
                Seq::filter_distributes_over_add(a, space + rest, keep);
                Seq::filter_distributes_over_add(space, rest, keep);
                Seq::filter_distributes_over_add(
                    a,
                    laid_end_to_end(wrapped_from(s, width, i + p + 1)),
                    keep,
                );
                assert(space.filter(keep) =~= Seq::empty()) by {
                    reveal(Seq::filter);
                    assert(space.drop_last() =~= Seq::empty());
                    assert(Seq::<char>::empty().filter(keep) =~= Seq::empty());
                }
                assert(Seq::<char>::empty() + rest.filter(keep) =~= rest.filter(keep));
            },
            None => {
                lemma_wrapped_from(s, width, i + width);
                lemma_laid(segment, wrapped_from(s, width, i + width));
                let rest = s.skip(i + width);
                assert(s.skip(i) =~= segment + rest);
                Seq::filter_distributes_over_add(segment, rest, keep);
                Seq::filter_distributes_over_add(
                    segment,
                    laid_end_to_end(wrapped_from(s, width, i + width)),
                    keep,
                );
            },
        }
    }
}

proof fn lemma_rfind_from_some(s: Seq<char>, c: char, i: int)
    requires
        i < s.len(),
    ensures
        match rfind_from(s, seq![c], i) {
            Some(p) => 0 <= p <= i && s[p] == c,
            None => true,
        },
    decreases i + 1,
{
    let p = seq![c];
    if i >= 0 {
        if occurs_at(s, p, i) {
            assert(s.subrange(i, i + 1)[0] == s[i]);
        } else {
            lemma_rfind_from_some(s, c, i - 1);
        }
    }
}

proof fn lemma_rfind_some(s: Seq<char>, c: char)
    ensures
        match rfind(s, seq![c]) {
            Some(p) => 0 <= p < s.len() && s[p] == c,
            None => true,
        },
{
    lemma_rfind_from_some(s, c, s.len() - 1);
}

/// Breaking a text into lines loses nothing of it but spaces, and keeps the order.
pub proof fn law_wrapping_loses_only_spaces(s: Seq<char>, width: nat)
    ensures
        spaceless(laid_end_to_end(wrapped(s, width))) == spaceless(s),
        s.len() <= width ==> wrapped(s, width) == seq![s],
{
    if width == 0 || s.len() <= width {
        lemma_laid(s, Seq::empty());
        assert(seq![s] + Seq::<Seq<char>>::empty() =~= seq![s]);
        assert(s + Seq::<char>::empty() =~= s);
    } else {
        lemma_wrapped_from(s, width, 0);
        assert(s.skip(0) =~= s);
    }
}

// ---------------------------------------------------------------------------
// Keys
// ---------------------------------------------------------------------------

/// The key that bytes make, if they make one: the first by itself or with those that
/// follow it.
pub open spec fn key_of(step: KeyStep, bytes: Seq<u8>) -> Option<Key>
    decreases bytes.len(),
{
    match step {
        KeyStep::Key(k) => if bytes.len() == 0 {
            Some(k)
        } else {
            None
        },
        KeyStep::More(s) => if bytes.len() == 0 {
            None
        } else {
            key_of(next_byte(s, Some(bytes[0])), bytes.subrange(1, bytes.len() as int))
        },
    }
}

/// The sequences of a terminal are the keys that they stand for.
pub proof fn law_sequences_are_keys(b: u8)
    requires
        48 <= b <= 57,
    ensures
        ({
            let after_bracket = |c: u8| next_byte(KeyState::Bracket, Some(c));
            &&& first_byte(27) == KeyStep::More(KeyState::Escape)
            &&& next_byte(KeyState::Escape, Some(91)) == KeyStep::More(KeyState::Bracket)
            &&& after_bracket(65) == KeyStep::Key(Key::Up)
            &&& after_bracket(66) == KeyStep::Key(Key::Down)
            &&& after_bracket(67) == KeyStep::Key(Key::Right)
            &&& after_bracket(68) == KeyStep::Key(Key::Left)
            &&& after_bracket(72) == KeyStep::Key(Key::Home)
            &&& after_bracket(70) == KeyStep::Key(Key::End)
            &&& first_byte(13) == KeyStep::Key(Key::Enter)
            &&& first_byte(127) == KeyStep::Key(Key::Backspace)
            &&& next_byte(KeyState::Escape, Some(13)) == KeyStep::Key(Key::AltEnter)
        }),
        key_of(KeyStep::More(KeyState::Bracket), seq![b, 126u8]) == Some(
            if b == 51 {
                Key::Delete
            } else if b == 53 {
                Key::PageUp
            } else if b == 54 {
                Key::PageDown
            } else {
                Key::Escape
            },
        ),
{
    reveal_with_fuel(key_of, 3);
    let s = seq![b, 126u8];
    assert(s.subrange(1, 2) =~= seq![126u8]);
    assert(seq![126u8].subrange(1, 1) =~= Seq::<u8>::empty());
}

/// The mouse is where its three numbers say: the button, the column and the row; one
/// digit of each is read by itself.
pub proof fn law_mouse_is_where_it_says(col: u16, row: u16, b: u8)
    requires
        48 <= b <= 57,
        10 * col + 9 <= u16::MAX,
        10 * row + 9 <= u16::MAX,
    ensures
        ({
            let at = |button: u16, col: u16, row: u16, index: u8|
                KeyState::Mouse { button, col, row, index };
            let d = (b - 48) as u16;
            &&& next_byte(at(0, col, 0, 1), Some(b)) == KeyStep::More(
                at(0, (10 * col + d) as u16, 0, 1),
            )
            &&& next_byte(at(0, col, row, 2), Some(b)) == KeyStep::More(
                at(0, col, (10 * row + d) as u16, 2),
            )
            &&& next_byte(at(0, col, 0, 1), Some(59)) == KeyStep::More(at(0, col, 0, 2))
            &&& next_byte(at(0, col, row, 2), Some(77)) == KeyStep::Key(
                Key::MouseClick { row, col },
            )
            &&& next_byte(at(64, col, row, 2), Some(77)) == KeyStep::Key(Key::ScrollUp)
            &&& next_byte(at(65, col, row, 2), Some(77)) == KeyStep::Key(Key::ScrollDown)
        }),
{
}

// ---------------------------------------------------------------------------
// The console
// ---------------------------------------------------------------------------

proof fn lemma_account_index(accounts: Seq<AccountConfigV>, p: int, i: int)
    requires
        0 <= i <= p < accounts.len(),
        forall|j: int| 0 <= j < p ==> (#[trigger] accounts[j]).name != accounts[p].name,
    ensures
        crate::tui::console::account_index(accounts, accounts[p].name, i) == p,
    decreases p - i,
{
    if i < p {
        assert(accounts[i].name != accounts[p].name);
        lemma_account_index(accounts, p, i + 1);
    }
}

/// What a view wants is done: a view is opened on top and left again, a draft is edited,
/// the account that is named is switched to, and the last view that is left ends it all.
pub proof fn law_wishes_of_views_are_done(
    c: ConsoleV,
    w: AnyViewV,
    draft: Seq<char>,
    p: int,
)
    requires
        c.stack.views.len() > 0,
        c.out.open,
        0 <= p < c.settings.accounts.len() <= usize::MAX,
        forall|j: int|
            0 <= j < p ==> (#[trigger] c.settings.accounts[j]).name != c.settings.accounts[p].name,
    ensures
        ({
            let n = c.stack.views.len();
            let opened = acted(c, ViewActionV::Push(w));
            let left = acted(c, ViewActionV::Pop);
            let edited = acted(c, ViewActionV::Compose(draft));
            let name = c.settings.accounts[p].name;
            let switched = acted(c, ViewActionV::SwitchAccount(name));
            &&& opened.0.stack.views == c.stack.views.push(w) && !opened.1.quit
            &&& n > 1 ==> left.0.stack.views == c.stack.views.drop_last() && !left.1.quit
            &&& n == 1 ==> left.1.quit
            &&& acted(c, ViewActionV::Quit).1.quit
            &&& edited.1.edit == Some(draft) && edited.0 == c && !edited.1.quit
            &&& switched.1.switch_to == Some(p as usize) && switched.0.out.sent == c.out.sent.push(
                BackendCommandV::Shutdown,
            )
        }),
{
    lemma_account_index(c.settings.accounts, p, 0);
}

// ---------------------------------------------------------------------------
// Lines of a thread
// ---------------------------------------------------------------------------

/// In a thread, too, the line of a message begins with its marks: `N` where it is unread
/// and `F` where it is flagged. Across folders the folder's name follows the date, in
/// brackets.
pub proof fn law_thread_lines_show_the_marks(e: EmailV, folder: Seq<char>, width: u16)
    ensures
        ({
            let line = thread_line(e, width);
            let across = cross_folder_line(e, folder, width);
            let named = " ["@ + truncated(folder, 12) + "] "@;
            let at = 4 + list_date(e).len();
            &&& line.len() >= 3 && across.len() >= 3
            &&& line[1] == 'N' <==> lookup(e.keywords, "$seen"@) is None
            &&& line[2] == 'F' <==> lookup(e.keywords, "$flagged"@) is Some
            &&& across[1] == 'N' <==> lookup(e.keywords, "$seen"@) is None
            &&& across[2] == 'F' <==> lookup(e.keywords, "$flagged"@) is Some
            &&& occurs_at(line, list_date(e), 4)
            &&& occurs_at(across, list_date(e), 4)
            &&& occurs_at(across, named, at as int)
        }),
{
    reveal_strlit("N");
    reveal_strlit("F");
    reveal_strlit(" ");
    let marks = list_marks(e);
    let date = list_date(e);
    assert("N"@.len() == 1 && "F"@.len() == 1 && " "@.len() == 1);
    assert(marks.len() == 2);
    assert(marks[0] == 'N' <==> lookup(e.keywords, "$seen"@) is None);
    assert(marks[1] == 'F' <==> lookup(e.keywords, "$flagged"@) is Some);
    let line = thread_line(e, width);
    assert(line[1] == marks[0] && line[2] == marks[1]);
    assert(line.subrange(4, (4 + date.len()) as int) =~= date);
    let across = cross_folder_line(e, folder, width);
    assert(across[1] == marks[0] && across[2] == marks[1]);
    assert(across.subrange(4, (4 + date.len()) as int) =~= date);
    let named = " ["@ + truncated(folder, 12) + "] "@;
    let at = 4 + date.len();
    assert(across.subrange(at as int, (at + named.len()) as int) =~= named);
}

/// The sender in a line of a list is the first one's name, or the address where there is
/// no name.
pub proof fn law_sender_is_the_first_one(e: EmailV)
    ensures
        e.from is Some && e.from->0.len() > 0 ==> ({
            let a = e.from->0[0];
            &&& a.name is Some ==> list_sender(e) == a.name->0
            &&& a.name is None && a.email is Some ==> list_sender(e) == a.email->0
        }),
{
}

// ---------------------------------------------------------------------------
// Ways to show a message
// ---------------------------------------------------------------------------

/// `h` goes from the text of a message to its hypertext and back, and `v` from the usual
/// headers to all of them and back; `v` asks for the headers of a message that were not
/// fetched yet, and for none otherwise.
pub proof fn law_message_is_shown_as_wished(v: EmailViewV, o: OutboxV, rows: u16)
    requires
        !v.attachment_picking,
        !v.move_mode,
        o.open,
    ensures
        ({
            let (h, p, _) = email_view_key(v, o, Key::Char('h'), rows);
            let (a, q, _) = email_view_key(v, o, Key::Char('v'), rows);
            &&& h.prefer_html == !v.prefer_html && h.show_all_headers == v.show_all_headers
            &&& p == o
            &&& a.show_all_headers == !v.show_all_headers && a.prefer_html == v.prefer_html
            &&& v.show_all_headers ==> q == o
            &&& !v.show_all_headers && v.thread_id is None ==> ({
                if lookup(v.raw_headers_cache, v.email_id) is None {
                    q == OutboxV {
                        sent: o.sent.push(
                            BackendCommandV::GetEmailRawHeaders { id: v.email_id },
                        ),
                        ..o
                    }
                } else {
                    q == o
                }
            })
            &&& email_view_key(v, o, Key::Char('q'), rows).2 is Pop
        }),
{
    reveal_with_fuel(headers_asked, 3);
}

} // verus!
