//! What is known of an account without its server: messages, mailboxes, and the
//! changes that wait to be sent.
//!
//! The tables live in memory; a caller that keeps them on disk loads them before
//! and stores them after each change.

use vstd::prelude::*;

use crate::compose::{join_path, path_join};
use crate::data::{
    at, key_index, lemma_key_index, lemma_lookup_present, lemma_lookup_with_entry,
    lemma_lookup_without_key, lookup, no_items, put, with_entry, without_key, without_key_upto, Dup,
    StrMap,
};
use crate::jmap::types::{Email, EmailV, Mailbox, MailboxV};
use crate::sorting::{is_text_le, sort_by, sorted, text_le};
use crate::text::{copy_list, same, to_chars};

verus! {

broadcast use vstd::seq_lib::group_seq_properties;

/// The tables of an account.
#[derive(Debug)]
pub struct Cache {
    pub emails: StrMap<Email>,
    pub rules_processed: StrMap<bool>,
    pub mailbox_index: StrMap<Vec<String>>,
    pub mailboxes: Option<Vec<Mailbox>>,
    pub op_queue: Vec<(u64, Vec<u8>)>,
}

/// The contents of a `Cache`.
pub struct CacheV {
    pub emails: Seq<(Seq<char>, EmailV)>,
    pub rules_processed: Seq<(Seq<char>, bool)>,
    pub mailbox_index: Seq<(Seq<char>, Seq<Seq<char>>)>,
    pub mailboxes: Option<Seq<MailboxV>>,
    pub op_queue: Seq<(u64, Seq<u8>)>,
}

impl DeepView for Cache {
    type V = CacheV;

    open spec fn deep_view(&self) -> CacheV {
        CacheV {
            emails: self.emails.deep_view(),
            rules_processed: self.rules_processed.deep_view(),
            mailbox_index: self.mailbox_index.deep_view(),
            mailboxes: self.mailboxes.deep_view(),
            op_queue: self.op_queue.deep_view(),
        }
    }
}

// ---------------------------------------------------------------------------
// Where tables are kept
// ---------------------------------------------------------------------------

/// The directory of the tables.
pub open spec fn cache_directory(cache_home: Option<Seq<char>>, home: Option<Seq<char>>) -> Seq<
    char,
> {
    match (cache_home, home) {
        (Some(c), _) => path_join(c, "tmc"@),
        (None, Some(h)) => path_join(path_join(h, ".cache"@), "tmc"@),
        (None, None) => path_join("/tmp"@, "tmc-cache"@),
    }
}

/// The directory of the tables.
pub fn cache_dir(xdg_cache_home: &Option<String>, home: &Option<String>) -> (r: String)
    ensures
        r@ == cache_directory(xdg_cache_home.deep_view(), home.deep_view()),
{
    match xdg_cache_home {
        Some(c) => join_path(c.as_str(), "tmc"),
        None => match home {
            Some(h) => join_path(join_path(h.as_str(), ".cache").as_str(), "tmc"),
            None => join_path("/tmp", "tmc-cache"),
        },
    }
}

/// A character that can stand in the name of a file.
pub open spec fn safe_char(c: char) -> char {
    if c == '/' || c == '\\' || c == '\0' {
        '_'
    } else {
        c
    }
}

/// A name with everything replaced that cannot stand in the name of a file.
pub open spec fn safe_name(name: Seq<char>) -> Seq<char> {
    name.map_values(|c: char| safe_char(c))
}

/// A name with everything replaced that cannot stand in the name of a file.
pub fn safe_name_of(name: &str) -> (r: String)
    ensures
        r@ == safe_name(name@),
{
    let v = to_chars(name);
    let mut s = String::new();
    let mut i: usize = 0;
    while i < v.len()
        invariant
            v@ == name@,
            i <= v@.len(),
            s@.len() == i,
            forall|j: int| 0 <= j < i ==> #[trigger] s@[j] == safe_char(v@[j]),
        decreases v@.len() - i,
    {
        let c = v[i];
        if c == '/' || c == '\\' || c == '\0' {
            s.push('_');
        } else {
            s.push(c);
        }
        i = i + 1;
    }
    assert(s@ =~= safe_name(name@));
    s
}

/// No name of a file leads to another directory.
pub proof fn law_safe_names_are_no_paths(name: Seq<char>, i: int)
    requires
        0 <= i < name.len(),
    ensures
        safe_name(name).len() == name.len(),
        safe_name(name)[i] != '/' && safe_name(name)[i] != '\\',
{
}

/// The file of an account's tables.
pub open spec fn database_file(dir: Seq<char>, account: Seq<char>) -> Seq<char> {
    path_join(dir, safe_name(account) + ".redb"@)
}

/// The file of an account's tables below a directory. What cannot stand in the
/// name of a file is replaced.
pub fn db_path(dir: &str, account_name: &str) -> (r: String)
    ensures
        r@ == database_file(dir@, account_name@),
{
    let mut name = safe_name_of(account_name);
    name.append(".redb");
    join_path(dir, name.as_str())
}

// ---------------------------------------------------------------------------
// Messages
// ---------------------------------------------------------------------------

/// The message table with the first `k` messages put into it.
pub open spec fn emails_put_upto(
    table: Seq<(Seq<char>, EmailV)>,
    emails: Seq<EmailV>,
    k: int,
) -> Seq<(Seq<char>, EmailV)>
    decreases k,
{
    if k <= 0 {
        table
    } else {
        with_entry(emails_put_upto(table, emails, k - 1), emails[k - 1].id, emails[k - 1])
    }
}

/// Those of the first `k` ids for which there is a message, as messages.
pub open spec fn emails_of_upto(
    table: Seq<(Seq<char>, EmailV)>,
    ids: Seq<Seq<char>>,
    k: int,
) -> Seq<EmailV>
    decreases k,
{
    if k <= 0 {
        Seq::empty()
    } else {
        match lookup(table, ids[k - 1]) {
            Some(e) => emails_of_upto(table, ids, k - 1).push(e),
            None => emails_of_upto(table, ids, k - 1),
        }
    }
}

/// The messages of a mailbox, if they are known.
pub open spec fn mailbox_emails(c: CacheV, mailbox_id: Seq<char>) -> Option<Seq<EmailV>> {
    match lookup(c.mailbox_index, mailbox_id) {
        None => None,
        Some(ids) => {
            let found = emails_of_upto(c.emails, ids, ids.len() as int);
            if ids.len() > 0 && found.len() == 0 {
                None
            } else {
                Some(found)
            }
        },
    }
}

/// Those of the first `k` messages that belong to a thread.
pub open spec fn in_thread_upto(
    table: Seq<(Seq<char>, EmailV)>,
    thread_id: Seq<char>,
    k: int,
) -> Seq<EmailV>
    decreases k,
{
    if k <= 0 {
        Seq::empty()
    } else if table[k - 1].1.thread_id == Some(thread_id) {
        in_thread_upto(table, thread_id, k - 1).push(table[k - 1].1)
    } else {
        in_thread_upto(table, thread_id, k - 1)
    }
}

/// The messages of a thread in the order of their ids.
pub open spec fn thread_emails(c: CacheV, thread_id: Seq<char>) -> Seq<EmailV> {
    sorted(
        in_thread_upto(c.emails, thread_id, c.emails.len() as int),
        |a: EmailV, b: EmailV| text_le(a.id, b.id),
    )
}

// ---------------------------------------------------------------------------
// Changes
// ---------------------------------------------------------------------------

/// Whether a message has been read.
pub open spec fn is_seen(e: EmailV) -> bool {
    lookup(e.keywords, "$seen"@) is Some
}

/// Whether a message is flagged.
pub open spec fn is_flagged(e: EmailV) -> bool {
    lookup(e.keywords, "$flagged"@) is Some
}

/// A message with a keyword set or not.
pub open spec fn with_keyword(e: EmailV, word: Seq<char>, on: bool) -> EmailV {
    EmailV {
        keywords: if on {
            with_entry(e.keywords, word, true)
        } else {
            without_key(e.keywords, word)
        },
        ..e
    }
}

/// A number lowered by one, but not below zero.
pub open spec fn lowered(n: u32) -> u32 {
    if n > 0 {
        (n - 1) as u32
    } else {
        n
    }
}

/// A number raised by one, but not above its bound.
pub open spec fn raised(n: u32) -> u32 {
    if n < u32::MAX {
        (n + 1) as u32
    } else {
        n
    }
}

/// A mailbox once one of the messages in it has been read, or is unread again.
pub open spec fn seen_counted(m: MailboxV, e: EmailV, seen: bool) -> MailboxV {
    if lookup(e.mailbox_ids, m.id) is None {
        m
    } else if seen {
        MailboxV { unread_emails: lowered(m.unread_emails), ..m }
    } else {
        MailboxV { unread_emails: raised(m.unread_emails), ..m }
    }
}

/// The tables once a message is marked as read or as unread; nothing if the
/// message is missing or so already.
pub open spec fn marked_seen(c: CacheV, id: Seq<char>, seen: bool) -> Option<CacheV> {
    match lookup(c.emails, id) {
        None => None,
        Some(e) => if is_seen(e) == seen {
            None
        } else {
            Some(
                CacheV {
                    emails: with_entry(c.emails, id, with_keyword(e, "$seen"@, seen)),
                    mailboxes: match c.mailboxes {
                        Some(ms) => Some(ms.map_values(|m: MailboxV| seen_counted(m, e, seen))),
                        None => None,
                    },
                    ..c
                },
            )
        },
    }
}

/// The tables once a message is flagged or not; nothing if the message is missing
/// or so already.
pub open spec fn set_flag(c: CacheV, id: Seq<char>, flagged: bool) -> Option<CacheV> {
    match lookup(c.emails, id) {
        None => None,
        Some(e) => if is_flagged(e) == flagged {
            None
        } else {
            Some(
                CacheV {
                    emails: with_entry(c.emails, id, with_keyword(e, "$flagged"@, flagged)),
                    ..c
                },
            )
        },
    }
}

/// The first `k` ids without one.
pub open spec fn without_id_upto(ids: Seq<Seq<char>>, id: Seq<char>, k: int) -> Seq<Seq<char>>
    decreases k,
{
    if k <= 0 {
        Seq::empty()
    } else if ids[k - 1] == id {
        without_id_upto(ids, id, k - 1)
    } else {
        without_id_upto(ids, id, k - 1).push(ids[k - 1])
    }
}

/// The ids without one.
pub open spec fn without_id(ids: Seq<Seq<char>>, id: Seq<char>) -> Seq<Seq<char>> {
    without_id_upto(ids, id, ids.len() as int)
}

/// The index of a table once a message has left the first `k` mailboxes it was in.
pub open spec fn left_upto(
    index: Seq<(Seq<char>, Seq<Seq<char>>)>,
    from: Seq<(Seq<char>, bool)>,
    id: Seq<char>,
    k: int,
) -> Seq<(Seq<char>, Seq<Seq<char>>)>
    decreases k,
{
    if k <= 0 {
        index
    } else {
        let before = left_upto(index, from, id, k - 1);
        match lookup(before, from[k - 1].0) {
            Some(ids) => with_entry(before, from[k - 1].0, without_id(ids, id)),
            None => before,
        }
    }
}

/// The index once a message stands first in a mailbox.
pub open spec fn entered(
    index: Seq<(Seq<char>, Seq<Seq<char>>)>,
    to: Seq<char>,
    id: Seq<char>,
) -> Seq<(Seq<char>, Seq<Seq<char>>)> {
    let ids = match lookup(index, to) {
        Some(ids) => ids,
        None => Seq::empty(),
    };
    with_entry(index, to, seq![id] + without_id(ids, id))
}

/// A mailbox once a message that was in it or not has moved.
pub open spec fn move_counted(m: MailboxV, e: EmailV, to: Seq<char>) -> MailboxV {
    let was_in = lookup(e.mailbox_ids, m.id) is Some;
    let now_in = m.id == to;
    if was_in && !now_in {
        MailboxV {
            total_emails: lowered(m.total_emails),
            unread_emails: if is_seen(e) {
                m.unread_emails
            } else {
                lowered(m.unread_emails)
            },
            ..m
        }
    } else if !was_in && now_in {
        MailboxV {
            total_emails: raised(m.total_emails),
            unread_emails: if is_seen(e) {
                m.unread_emails
            } else {
                raised(m.unread_emails)
            },
            ..m
        }
    } else {
        m
    }
}

/// The tables once a message has moved to a mailbox, where it stands first;
/// nothing if the message is missing.
pub open spec fn moved(c: CacheV, id: Seq<char>, to: Seq<char>) -> Option<CacheV> {
    match lookup(c.emails, id) {
        None => None,
        Some(e) => Some(
            CacheV {
                emails: with_entry(
                    c.emails,
                    id,
                    EmailV { mailbox_ids: seq![(to, true)], ..e },
                ),
                mailbox_index: entered(
                    left_upto(c.mailbox_index, e.mailbox_ids, id, e.mailbox_ids.len() as int),
                    to,
                    id,
                ),
                mailboxes: match c.mailboxes {
                    Some(ms) => Some(ms.map_values(|m: MailboxV| move_counted(m, e, to))),
                    None => None,
                },
                ..c
            },
        ),
    }
}

/// A mailbox once a message that was in it or not is gone.
pub open spec fn destroy_counted(m: MailboxV, e: EmailV) -> MailboxV {
    if lookup(e.mailbox_ids, m.id) is None {
        m
    } else {
        MailboxV {
            total_emails: lowered(m.total_emails),
            unread_emails: if is_seen(e) {
                m.unread_emails
            } else {
                lowered(m.unread_emails)
            },
            ..m
        }
    }
}

/// The tables once a message is gone; nothing if it is missing.
pub open spec fn destroyed(c: CacheV, id: Seq<char>) -> Option<CacheV> {
    match lookup(c.emails, id) {
        None => None,
        Some(e) => Some(
            CacheV {
                emails: without_key(c.emails, id),
                mailbox_index: left_upto(
                    c.mailbox_index,
                    e.mailbox_ids,
                    id,
                    e.mailbox_ids.len() as int,
                ),
                mailboxes: match c.mailboxes {
                    Some(ms) => Some(ms.map_values(|m: MailboxV| destroy_counted(m, e))),
                    None => None,
                },
                ..c
            },
        ),
    }
}

/// The message table once the first `k` messages of a list are read, and those
/// that were not before.
pub open spec fn read_upto(
    table: Seq<(Seq<char>, EmailV)>,
    ids: Seq<Seq<char>>,
    k: int,
) -> (Seq<(Seq<char>, EmailV)>, Seq<EmailV>)
    decreases k,
{
    if k <= 0 {
        (table, Seq::empty())
    } else {
        let (before, changed) = read_upto(table, ids, k - 1);
        match lookup(before, ids[k - 1]) {
            None => (before, changed),
            Some(e) => if is_seen(e) {
                (before, changed)
            } else {
                let read = with_keyword(e, "$seen"@, true);
                (with_entry(before, ids[k - 1], read), changed.push(read))
            },
        }
    }
}

/// How many of the first `k` messages are in a mailbox.
pub open spec fn count_in(emails: Seq<EmailV>, mailbox_id: Seq<char>, k: int) -> nat
    decreases k,
{
    if k <= 0 {
        0
    } else {
        count_in(emails, mailbox_id, k - 1) + (if lookup(emails[k - 1].mailbox_ids, mailbox_id)
            is Some {
            1nat
        } else {
            0nat
        })
    }
}

/// A mailbox once some messages have been read.
pub open spec fn reads_counted(m: MailboxV, changed: Seq<EmailV>) -> MailboxV {
    let n = count_in(changed, m.id, changed.len() as int);
    MailboxV {
        unread_emails: if n < m.unread_emails {
            (m.unread_emails - n) as u32
        } else {
            0
        },
        ..m
    }
}

/// The ids of the messages of a mailbox.
pub open spec fn ids_in(c: CacheV, mailbox_id: Seq<char>) -> Seq<Seq<char>> {
    match lookup(c.mailbox_index, mailbox_id) {
        Some(ids) => ids,
        None => Seq::empty(),
    }
}

/// The tables once all messages of a mailbox are read, and how many were not.
pub open spec fn mailbox_read(c: CacheV, mailbox_id: Seq<char>) -> (CacheV, nat) {
    let ids = ids_in(c, mailbox_id);
    let (emails, changed) = read_upto(c.emails, ids, ids.len() as int);
    (
        CacheV {
            emails,
            mailboxes: match c.mailboxes {
                Some(ms) => Some(ms.map_values(|m: MailboxV| reads_counted(m, changed))),
                None => None,
            },
            ..c
        },
        changed.len(),
    )
}

// ---------------------------------------------------------------------------
// The queue
// ---------------------------------------------------------------------------

/// The operations wait in the order of their numbers.
pub open spec fn queue_ok(q: Seq<(u64, Seq<u8>)>) -> bool {
    forall|i: int, j: int| 0 <= i < j < q.len() ==> (#[trigger] q[i]).0 < (#[trigger] q[j]).0
}

/// The tables with nothing in them.
pub open spec fn empty_cache() -> CacheV {
    CacheV {
        emails: Seq::empty(),
        rules_processed: Seq::empty(),
        mailbox_index: Seq::empty(),
        mailboxes: None,
        op_queue: Seq::empty(),
    }
}

/// The number of the next operation.
pub open spec fn next_seq(q: Seq<(u64, Seq<u8>)>) -> u64 {
    let last = if q.len() > 0 {
        q.last().0
    } else {
        0
    };
    if last < u64::MAX {
        (last + 1) as u64
    } else {
        last
    }
}

/// The queue with one more operation; at the very last number it takes the place
/// of the one there.
pub open spec fn queued(q: Seq<(u64, Seq<u8>)>, payload: Seq<u8>) -> Seq<(u64, Seq<u8>)> {
    if q.len() > 0 && q.last().0 == u64::MAX {
        q.update(q.len() - 1, (u64::MAX, payload))
    } else {
        q.push((next_seq(q), payload))
    }
}

/// The first `k` operations without the one of a number.
pub open spec fn unqueued_upto(q: Seq<(u64, Seq<u8>)>, seq: u64, k: int) -> Seq<(u64, Seq<u8>)>
    decreases k,
{
    if k <= 0 {
        Seq::empty()
    } else if q[k - 1].0 == seq {
        unqueued_upto(q, seq, k - 1)
    } else {
        unqueued_upto(q, seq, k - 1).push(q[k - 1])
    }
}

/// Those of the first `k` ids that the rules have not seen.
pub open spec fn unprocessed_upto(
    table: Seq<(Seq<char>, bool)>,
    ids: Seq<Seq<char>>,
    k: int,
) -> Seq<Seq<char>>
    decreases k,
{
    if k <= 0 {
        Seq::empty()
    } else if lookup(table, ids[k - 1]) is None {
        unprocessed_upto(table, ids, k - 1).push(ids[k - 1])
    } else {
        unprocessed_upto(table, ids, k - 1)
    }
}

/// The table of the ids that the rules have seen, with the first `k` of a list.
pub open spec fn processed_upto(
    table: Seq<(Seq<char>, bool)>,
    ids: Seq<Seq<char>>,
    k: int,
) -> Seq<(Seq<char>, bool)>
    decreases k,
{
    if k <= 0 {
        table
    } else {
        with_entry(processed_upto(table, ids, k - 1), ids[k - 1], true)
    }
}

// ---------------------------------------------------------------------------
// Implementation
// ---------------------------------------------------------------------------

fn drop_id(ids: &Vec<String>, id: &str) -> (r: Vec<String>)
    ensures
        r.deep_view() == without_id(ids.deep_view(), id@),
{
    let mut out: Vec<String> = no_items();
    let mut i: usize = 0;
    while i < ids.len()
        invariant
            i <= ids@.len(),
            out.deep_view() == without_id_upto(ids.deep_view(), id@, i as int),
        decreases ids@.len() - i,
    {
        let x = at(ids.as_slice(), i);
        if !same(x.as_str(), id) {
            put(&mut out, x.clone());
        }
        i = i + 1;
    }
    out
}

fn lower(n: u32) -> (r: u32)
    ensures
        r == lowered(n),
{
    if n > 0 {
        n - 1
    } else {
        n
    }
}

fn raise(n: u32) -> (r: u32)
    ensures
        r == raised(n),
{
    if n < u32::MAX {
        n + 1
    } else {
        n
    }
}

fn leave_mailboxes(index: &mut StrMap<Vec<String>>, from: &StrMap<bool>, id: &str)
    ensures
        final(index).deep_view() == left_upto(
            old(index).deep_view(),
            from.deep_view(),
            id@,
            from.deep_view().len() as int,
        ),
{
    let ghost start = index.deep_view();
    let n: usize = from.len();
    let mut i: usize = 0;
    while i < n
        invariant
            i <= n == from.deep_view().len(),
            index.deep_view() == left_upto(start, from.deep_view(), id@, i as int),
        decreases n - i,
    {
        let key = from.key_at(i);
        let kept = match index.get(key) {
            Some(ids) => Some(drop_id(ids, id)),
            None => None,
        };
        match kept {
            Some(ids) => {
                index.insert(key.to_owned(), ids);
            },
            None => {},
        }
        i = i + 1;
    }
}

impl Cache {
    /// Tables without entries.
    pub fn new() -> (r: Cache)
        ensures
            r.deep_view() == empty_cache(),
    {
        let op_queue: Vec<(u64, Vec<u8>)> = no_items();
        Cache {
            emails: StrMap::new(),
            rules_processed: StrMap::new(),
            mailbox_index: StrMap::new(),
            mailboxes: None,
            op_queue,
        }
    }

    /// Empties the tables.
    pub fn clear(&mut self)
        ensures
            final(self).deep_view() == (CacheV {
                emails: Seq::empty(),
                rules_processed: Seq::empty(),
                mailbox_index: Seq::empty(),
                mailboxes: None,
                op_queue: Seq::empty(),
            }),
    {
        *self = Cache::new();
    }

    /// The message with an id.
    pub fn get_email(&self, id: &str) -> (r: Option<Email>)
        ensures
            r.deep_view() == lookup(self.deep_view().emails, id@),
    {
        match self.emails.get(id) {
            Some(e) => Some(e.dup()),
            None => None,
        }
    }

    /// Keeps messages under their ids.
    pub fn put_emails(&mut self, emails: &[Email])
        ensures
            final(self).deep_view() == (CacheV {
                emails: emails_put_upto(
                    old(self).deep_view().emails,
                    emails.deep_view(),
                    emails@.len() as int,
                ),
                ..old(self).deep_view()
            }),
    {
        let ghost start = self.deep_view();
        let mut i: usize = 0;
        while i < emails.len()
            invariant
                i <= emails@.len(),
                self.deep_view() == (CacheV {
                    emails: emails_put_upto(start.emails, emails.deep_view(), i as int),
                    ..start
                }),
            decreases emails@.len() - i,
        {
            let e = at(emails, i);
            self.emails.insert(e.id.clone(), e.dup());
            i = i + 1;
        }
    }

    /// The messages of a mailbox in the order of its index. Nothing is known of a
    /// mailbox without an index, or with an index none of whose messages is here.
    pub fn get_mailbox_emails(&self, mailbox_id: &str) -> (r: Option<Vec<Email>>)
        ensures
            r.deep_view() == mailbox_emails(self.deep_view(), mailbox_id@),
    {
        let ids = match self.mailbox_index.get(mailbox_id) {
            Some(ids) => ids,
            None => {
                return None;
            },
        };
        let mut out: Vec<Email> = no_items();
        let mut i: usize = 0;
        while i < ids.len()
            invariant
                i <= ids@.len(),
                out.deep_view() == emails_of_upto(
                    self.emails.deep_view(),
                    ids.deep_view(),
                    i as int,
                ),
            decreases ids@.len() - i,
        {
            match self.emails.get(at(ids.as_slice(), i).as_str()) {
                Some(e) => {
                    put(&mut out, e.dup());
                },
                None => {},
            }
            i = i + 1;
        }
        if ids.len() > 0 && out.len() == 0 {
            None
        } else {
            Some(out)
        }
    }

    /// Keeps which messages a mailbox holds, and in what order.
    pub fn put_mailbox_index(&mut self, mailbox_id: &str, email_ids: &[String])
        ensures
            final(self).deep_view() == (CacheV {
                mailbox_index: with_entry(
                    old(self).deep_view().mailbox_index,
                    mailbox_id@,
                    email_ids.deep_view(),
                ),
                ..old(self).deep_view()
            }),
    {
        let mut ids: Vec<String> = no_items();
        let mut i: usize = 0;
        while i < email_ids.len()
            invariant
                i <= email_ids@.len(),
                ids.deep_view() == email_ids.deep_view().subrange(0, i as int),
            decreases email_ids@.len() - i,
        {
            assert(email_ids.deep_view().subrange(0, i as int).push(
                email_ids.deep_view()[i as int],
            ) =~= email_ids.deep_view().subrange(0, i + 1));
            put(&mut ids, at(email_ids, i).clone());
            i = i + 1;
        }
        assert(ids.deep_view() =~= email_ids.deep_view());
        self.mailbox_index.insert(mailbox_id.to_owned(), ids);
    }

    /// The mailboxes, if they are known.
    pub fn get_mailboxes(&self) -> (r: Option<Vec<Mailbox>>)
        ensures
            r.deep_view() == self.deep_view().mailboxes,
    {
        self.mailboxes.dup()
    }

    /// Keeps the mailboxes.
    pub fn put_mailboxes(&mut self, mailboxes: &[Mailbox])
        ensures
            final(self).deep_view() == (CacheV {
                mailboxes: Some(mailboxes.deep_view()),
                ..old(self).deep_view()
            }),
    {
        let mut ms: Vec<Mailbox> = no_items();
        let mut i: usize = 0;
        while i < mailboxes.len()
            invariant
                i <= mailboxes@.len(),
                ms.deep_view() == mailboxes.deep_view().subrange(0, i as int),
            decreases mailboxes@.len() - i,
        {
            assert(mailboxes.deep_view().subrange(0, i as int).push(
                mailboxes.deep_view()[i as int],
            ) =~= mailboxes.deep_view().subrange(0, i + 1));
            put(&mut ms, at(mailboxes, i).dup());
            i = i + 1;
        }
        assert(ms.deep_view() =~= mailboxes.deep_view());
        self.mailboxes = Some(ms);
    }

    /// The messages of a thread in the order of their ids.
    pub fn get_thread_emails(&self, thread_id: &str) -> (r: Vec<Email>)
        ensures
            r.deep_view() == thread_emails(self.deep_view(), thread_id@),
    {
        let ghost table = self.emails.deep_view();
        let n: usize = self.emails.len();
        let mut out: Vec<Email> = no_items();
        let mut i: usize = 0;
        while i < n
            invariant
                i <= n == table.len(),
                table == self.emails.deep_view(),
                out.deep_view() == in_thread_upto(table, thread_id@, i as int),
            decreases n - i,
        {
            let e = self.emails.value_at(i);
            match &e.thread_id {
                Some(t) => {
                    if same(t.as_str(), thread_id) {
                        put(&mut out, e.dup());
                    }
                },
                None => {},
            }
            i = i + 1;
        }
        let f = |a: &Email, b: &Email| -> (o: bool)
            ensures
                o == text_le(a.deep_view().id, b.deep_view().id),
            { is_text_le(a.id.as_str(), b.id.as_str()) };
        sort_by(out, f, Ghost(|a: EmailV, b: EmailV| text_le(a.id, b.id)))
    }

    /// Marks a message as read or as unread and counts it in its mailboxes; says
    /// whether anything changed.
    pub fn apply_mark_seen(&mut self, id: &str, seen: bool) -> (r: bool)
        ensures
            match marked_seen(old(self).deep_view(), id@, seen) {
                Some(c) => r && final(self).deep_view() == c,
                None => !r && final(self).deep_view() == old(self).deep_view(),
            },
    {
        let ghost start = self.deep_view();
        let mut email = match self.emails.get(id) {
            Some(e) => e.dup(),
            None => {
                return false;
            },
        };
        let ghost ev = email.deep_view();
        if email.keywords.contains_key("$seen") == seen {
            return false;
        }
        if seen {
            email.keywords.insert("$seen".to_owned(), true);
        } else {
            email.keywords.remove("$seen");
        }
        assert(email.deep_view() == with_keyword(ev, "$seen"@, seen));
        let counted = match &self.mailboxes {
            Some(ms) => {
                let mut out: Vec<Mailbox> = no_items();
                let ghost mv = ms.deep_view();
                let mut i: usize = 0;
                while i < ms.len()
                    invariant
                        i <= ms@.len(),
                        mv == ms.deep_view(),
                        email.deep_view().mailbox_ids == ev.mailbox_ids,
                        out.deep_view().len() == i,
                        forall|j: int|
                            0 <= j < i ==> #[trigger] out.deep_view()[j] == seen_counted(
                                mv[j],
                                ev,
                                seen,
                            ),
                    decreases ms@.len() - i,
                {
                    let mut m = at(ms.as_slice(), i).dup();
                    if email.mailbox_ids.contains_key(m.id.as_str()) {
                        m.unread_emails = if seen {
                            lower(m.unread_emails)
                        } else {
                            raise(m.unread_emails)
                        };
                    }
                    put(&mut out, m);
                    i = i + 1;
                }
                assert(out.deep_view() =~= mv.map_values(
                    |m: MailboxV| seen_counted(m, ev, seen),
                ));
                Some(out)
            },
            None => None,
        };
        self.emails.insert(id.to_owned(), email);
        self.mailboxes = counted;
        true
    }

    /// Flags a message or takes its flag away; says whether anything changed.
    pub fn apply_set_flagged(&mut self, id: &str, flagged: bool) -> (r: bool)
        ensures
            match set_flag(old(self).deep_view(), id@, flagged) {
                Some(c) => r && final(self).deep_view() == c,
                None => !r && final(self).deep_view() == old(self).deep_view(),
            },
    {
        let mut email = match self.emails.get(id) {
            Some(e) => e.dup(),
            None => {
                return false;
            },
        };
        let ghost ev = email.deep_view();
        if email.keywords.contains_key("$flagged") == flagged {
            return false;
        }
        if flagged {
            email.keywords.insert("$flagged".to_owned(), true);
        } else {
            email.keywords.remove("$flagged");
        }
        assert(email.deep_view() == with_keyword(ev, "$flagged"@, flagged));
        self.emails.insert(id.to_owned(), email);
        true
    }

    /// Moves a message to a mailbox, takes it out of the indexes of those it was
    /// in, puts it first in the index of the new one and counts it; says whether
    /// there was such a message.
    pub fn apply_move_email(&mut self, id: &str, to_mailbox_id: &str) -> (r: bool)
        ensures
            match moved(old(self).deep_view(), id@, to_mailbox_id@) {
                Some(c) => r && final(self).deep_view() == c,
                None => !r && final(self).deep_view() == old(self).deep_view(),
            },
    {
        let previous = match self.emails.get(id) {
            Some(e) => e.dup(),
            None => {
                return false;
            },
        };
        let ghost ev = previous.deep_view();
        let was_seen = previous.keywords.contains_key("$seen");
        let mut email = previous.dup();
        let mut target: StrMap<bool> = StrMap::new();
        target.insert(to_mailbox_id.to_owned(), true);
        assert(target.deep_view() =~= seq![(to_mailbox_id@, true)]);
        email.mailbox_ids = target;
        leave_mailboxes(&mut self.mailbox_index, &previous.mailbox_ids, id);
        let ghost left = self.mailbox_index.deep_view();
        let mut ids: Vec<String> = no_items();
        put(&mut ids, id.to_owned());
        let rest = match self.mailbox_index.get(to_mailbox_id) {
            Some(old_ids) => drop_id(old_ids, id),
            None => no_items(),
        };
        let ghost rv = rest.deep_view();
        crate::data::put_all(&mut ids, rest);
        proof {
            assert(ids.deep_view() =~= seq![id@] + rv);
            assert(without_id(Seq::<Seq<char>>::empty(), id@) =~= Seq::<Seq<char>>::empty());
        }
        self.mailbox_index.insert(to_mailbox_id.to_owned(), ids);
        let counted = match &self.mailboxes {
            Some(ms) => {
                let mut out: Vec<Mailbox> = no_items();
                let ghost mv = ms.deep_view();
                let mut i: usize = 0;
                while i < ms.len()
                    invariant
                        i <= ms@.len(),
                        mv == ms.deep_view(),
                        ev == previous.deep_view(),
                        was_seen == is_seen(ev),
                        out.deep_view().len() == i,
                        forall|j: int|
                            0 <= j < i ==> #[trigger] out.deep_view()[j] == move_counted(
                                mv[j],
                                ev,
                                to_mailbox_id@,
                            ),
                    decreases ms@.len() - i,
                {
                    let mut m = at(ms.as_slice(), i).dup();
                    let was_in = previous.mailbox_ids.contains_key(m.id.as_str());
                    let now_in = same(m.id.as_str(), to_mailbox_id);
                    if was_in && !now_in {
                        m.total_emails = lower(m.total_emails);
                        if !was_seen {
                            m.unread_emails = lower(m.unread_emails);
                        }
                    } else if !was_in && now_in {
                        m.total_emails = raise(m.total_emails);
                        if !was_seen {
                            m.unread_emails = raise(m.unread_emails);
                        }
                    }
                    put(&mut out, m);
                    i = i + 1;
                }
                assert(out.deep_view() =~= mv.map_values(
                    |m: MailboxV| move_counted(m, ev, to_mailbox_id@),
                ));
                Some(out)
            },
            None => None,
        };
        self.emails.insert(id.to_owned(), email);
        self.mailboxes = counted;
        true
    }

    /// Removes a message from the tables, takes it out of the indexes of its
    /// mailboxes and counts it; says whether there was such a message.
    pub fn apply_destroy_email(&mut self, id: &str) -> (r: bool)
        ensures
            match destroyed(old(self).deep_view(), id@) {
                Some(c) => r && final(self).deep_view() == c,
                None => !r && final(self).deep_view() == old(self).deep_view(),
            },
    {
        let previous = match self.emails.get(id) {
            Some(e) => e.dup(),
            None => {
                return false;
            },
        };
        let ghost ev = previous.deep_view();
        let was_seen = previous.keywords.contains_key("$seen");
        leave_mailboxes(&mut self.mailbox_index, &previous.mailbox_ids, id);
        let counted = match &self.mailboxes {
            Some(ms) => {
                let mut out: Vec<Mailbox> = no_items();
                let ghost mv = ms.deep_view();
                let mut i: usize = 0;
                while i < ms.len()
                    invariant
                        i <= ms@.len(),
                        mv == ms.deep_view(),
                        ev == previous.deep_view(),
                        was_seen == is_seen(ev),
                        out.deep_view().len() == i,
                        forall|j: int|
                            0 <= j < i ==> #[trigger] out.deep_view()[j] == destroy_counted(
                                mv[j],
                                ev,
                            ),
                    decreases ms@.len() - i,
                {
                    let mut m = at(ms.as_slice(), i).dup();
                    if previous.mailbox_ids.contains_key(m.id.as_str()) {
                        m.total_emails = lower(m.total_emails);
                        if !was_seen {
                            m.unread_emails = lower(m.unread_emails);
                        }
                    }
                    put(&mut out, m);
                    i = i + 1;
                }
                assert(out.deep_view() =~= mv.map_values(|m: MailboxV| destroy_counted(m, ev)));
                Some(out)
            },
            None => None,
        };
        self.emails.remove(id);
        self.mailboxes = counted;
        true
    }

    /// Marks all messages of a mailbox as read and counts them in their
    /// mailboxes; says how many were unread.
    pub fn apply_mark_mailbox_read(&mut self, mailbox_id: &str) -> (r: usize)
        ensures
            (final(self).deep_view(), r as nat) == mailbox_read(
                old(self).deep_view(),
                mailbox_id@,
            ),
    {
        let ghost start = self.deep_view();
        let ids = match self.mailbox_index.get(mailbox_id) {
            Some(ids) => copy_list(ids),
            None => no_items(),
        };
        let ghost iv = ids.deep_view();
        assert(iv == ids_in(start, mailbox_id@));
        let mut changed: Vec<Email> = no_items();
        let mut i: usize = 0;
        while i < ids.len()
            invariant
                i <= ids@.len(),
                iv == ids.deep_view(),
                (self.emails.deep_view(), changed.deep_view()) == read_upto(
                    start.emails,
                    iv,
                    i as int,
                ),
                self.deep_view() == (CacheV { emails: self.emails.deep_view(), ..start }),
            decreases ids@.len() - i,
        {
            let id = at(ids.as_slice(), i);
            let unread = match self.emails.get(id.as_str()) {
                Some(e) => {
                    if e.keywords.contains_key("$seen") {
                        None
                    } else {
                        Some(e.dup())
                    }
                },
                None => None,
            };
            match unread {
                Some(e) => {
                    let ghost ev = e.deep_view();
                    let mut read = e;
                    read.keywords.insert("$seen".to_owned(), true);
                    assert(read.deep_view() == with_keyword(ev, "$seen"@, true));
                    put(&mut changed, read.dup());
                    self.emails.insert(id.clone(), read);
                },
                None => {},
            }
            i = i + 1;
        }
        let ghost cv = changed.deep_view();
        let counted = match &self.mailboxes {
            Some(ms) => {
                let mut out: Vec<Mailbox> = no_items();
                let ghost mv = ms.deep_view();
                let mut k: usize = 0;
                while k < ms.len()
                    invariant
                        k <= ms@.len(),
                        mv == ms.deep_view(),
                        cv == changed.deep_view(),
                        out.deep_view().len() == k,
                        forall|j: int|
                            0 <= j < k ==> #[trigger] out.deep_view()[j] == reads_counted(
                                mv[j],
                                cv,
                            ),
                    decreases ms@.len() - k,
                {
                    let mut m = at(ms.as_slice(), k).dup();
                    let n: usize = count_emails_in(&changed, m.id.as_str());
                    m.unread_emails = if n < m.unread_emails as usize {
                        m.unread_emails - n as u32
                    } else {
                        0
                    };
                    put(&mut out, m);
                    k = k + 1;
                }
                assert(out.deep_view() =~= mv.map_values(|m: MailboxV| reads_counted(m, cv)));
                Some(out)
            },
            None => None,
        };
        self.mailboxes = counted;
        changed.len()
    }

    /// Marks a message as read or as unread.
    pub fn update_email_seen(&mut self, id: &str, seen: bool)
        ensures
            final(self).deep_view() == (match marked_seen(old(self).deep_view(), id@, seen) {
                Some(c) => c,
                None => old(self).deep_view(),
            }),
    {
        let _ = self.apply_mark_seen(id, seen);
    }

    /// Flags a message or takes its flag away.
    pub fn update_email_flagged(&mut self, id: &str, flagged: bool)
        ensures
            final(self).deep_view() == (match set_flag(old(self).deep_view(), id@, flagged) {
                Some(c) => c,
                None => old(self).deep_view(),
            }),
    {
        let _ = self.apply_set_flagged(id, flagged);
    }

    /// Removes a message from the tables.
    pub fn remove_email(&mut self, id: &str)
        ensures
            final(self).deep_view() == (match destroyed(old(self).deep_view(), id@) {
                Some(c) => c,
                None => old(self).deep_view(),
            }),
    {
        let _ = self.apply_destroy_email(id);
    }

    /// The tables of a cache that holds nothing but waiting operations, with their
    /// numbers; nothing if the numbers do not ascend.
    pub fn with_queue(entries: Vec<(u64, Vec<u8>)>) -> (r: Option<Cache>)
        ensures
            match r {
                Some(c) => queue_ok(entries.deep_view()) && c.deep_view() == (CacheV {
                    op_queue: entries.deep_view(),
                    ..empty_cache()
                }),
                None => !queue_ok(entries.deep_view()),
            },
    {
        let ghost q = entries.deep_view();
        let mut i: usize = 1;
        while i < entries.len()
            invariant
                1 <= i,
                q == entries.deep_view(),
                i <= q.len() || q.len() == 0,
                forall|j: int, k: int|
                    0 <= j < k < i && k < q.len() ==> (#[trigger] q[j]).0 < (#[trigger] q[k]).0,
            decreases entries@.len() - i,
        {
            assert(q[i as int] == entries@[i as int].deep_view());
            assert(q[i - 1] == entries@[i - 1].deep_view());
            if entries[i - 1].0 >= entries[i].0 {
                return None;
            }
            i = i + 1;
        }
        let mut c = Cache::new();
        c.op_queue = entries;
        Some(c)
    }

    /// The number that the next operation gets.
    pub fn next_number(&self) -> (r: u64)
        ensures
            r == next_seq(self.deep_view().op_queue),
    {
        let ghost q = self.op_queue.deep_view();
        let n: usize = self.op_queue.len();
        if n == 0 {
            return 1;
        }
        assert(q[n - 1] == self.op_queue@[n - 1].deep_view());
        let last: u64 = self.op_queue[n - 1].0;
        if last < u64::MAX {
            last + 1
        } else {
            last
        }
    }

    /// Puts an operation at the end of the queue and gives its number.
    pub fn enqueue_operation(&mut self, payload: &[u8]) -> (r: u64)
        requires
            queue_ok(old(self).deep_view().op_queue),
        ensures
            r == next_seq(old(self).deep_view().op_queue),
            final(self).deep_view() == (CacheV {
                op_queue: queued(old(self).deep_view().op_queue, payload@),
                ..old(self).deep_view()
            }),
            queue_ok(final(self).deep_view().op_queue),
    {
        let ghost q = self.op_queue.deep_view();
        let mut bytes: Vec<u8> = Vec::new();
        let mut i: usize = 0;
        while i < payload.len()
            invariant
                i <= payload@.len(),
                bytes@ == payload@.subrange(0, i as int),
            decreases payload@.len() - i,
        {
            assert(payload@.subrange(0, i as int).push(payload@[i as int]) =~= payload@.subrange(
                0,
                i + 1,
            ));
            bytes.push(payload[i]);
            i = i + 1;
        }
        assert(bytes.deep_view() =~= payload@);
        let n: usize = self.op_queue.len();
        if n > 0 {
            assert(q[n - 1] == self.op_queue@[n - 1].deep_view());
            let last: u64 = self.op_queue[n - 1].0;
            if last == u64::MAX {
                self.op_queue.set(n - 1, (u64::MAX, bytes));
                assert(self.op_queue.deep_view() =~= queued(q, payload@));
                return u64::MAX;
            }
            put(&mut self.op_queue, (last + 1, bytes));
            return last + 1;
        }
        put(&mut self.op_queue, (1, bytes));
        1
    }

    /// The waiting operations in the order in which they came.
    pub fn queued_operations(&self) -> (r: Vec<(u64, Vec<u8>)>)
        ensures
            r.deep_view() == self.deep_view().op_queue,
    {
        let mut out: Vec<(u64, Vec<u8>)> = no_items();
        let ghost q = self.op_queue.deep_view();
        let mut i: usize = 0;
        while i < self.op_queue.len()
            invariant
                i <= self.op_queue@.len(),
                q == self.op_queue.deep_view(),
                out.deep_view() == q.subrange(0, i as int),
            decreases self.op_queue@.len() - i,
        {
            let e = at(self.op_queue.as_slice(), i);
            let bytes = copy_bytes(&e.1);
            assert(q.subrange(0, i as int).push(q[i as int]) =~= q.subrange(0, i + 1));
            put(&mut out, (e.0, bytes));
            i = i + 1;
        }
        assert(out.deep_view() =~= q);
        out
    }

    /// Takes an operation out of the queue.
    pub fn remove_queued_operation(&mut self, seq: u64) -> (r: bool)
        ensures
            r,
            final(self).deep_view() == (CacheV {
                op_queue: unqueued_upto(
                    old(self).deep_view().op_queue,
                    seq,
                    old(self).deep_view().op_queue.len() as int,
                ),
                ..old(self).deep_view()
            }),
    {
        let ghost q = self.op_queue.deep_view();
        let mut out: Vec<(u64, Vec<u8>)> = no_items();
        let mut i: usize = 0;
        while i < self.op_queue.len()
            invariant
                i <= self.op_queue@.len(),
                q == self.op_queue.deep_view(),
                out.deep_view() == unqueued_upto(q, seq, i as int),
            decreases self.op_queue@.len() - i,
        {
            let e = at(self.op_queue.as_slice(), i);
            if e.0 != seq {
                let bytes = copy_bytes(&e.1);
                put(&mut out, (e.0, bytes));
            }
            i = i + 1;
        }
        self.op_queue = out;
        true
    }

    /// Those of some ids that the rules have not seen.
    pub fn filter_unprocessed(&self, ids: &[String]) -> (r: Vec<String>)
        ensures
            r.deep_view() == unprocessed_upto(
                self.deep_view().rules_processed,
                ids.deep_view(),
                ids@.len() as int,
            ),
    {
        let mut out: Vec<String> = no_items();
        let mut i: usize = 0;
        while i < ids.len()
            invariant
                i <= ids@.len(),
                out.deep_view() == unprocessed_upto(
                    self.rules_processed.deep_view(),
                    ids.deep_view(),
                    i as int,
                ),
            decreases ids@.len() - i,
        {
            let id = at(ids, i);
            if !self.rules_processed.contains_key(id.as_str()) {
                put(&mut out, id.clone());
            }
            i = i + 1;
        }
        out
    }

    /// Notes that the rules have seen some ids.
    pub fn mark_rules_processed(&mut self, ids: &[String])
        ensures
            final(self).deep_view() == (CacheV {
                rules_processed: processed_upto(
                    old(self).deep_view().rules_processed,
                    ids.deep_view(),
                    ids@.len() as int,
                ),
                ..old(self).deep_view()
            }),
    {
        let ghost start = self.deep_view();
        let mut i: usize = 0;
        while i < ids.len()
            invariant
                i <= ids@.len(),
                self.deep_view() == (CacheV {
                    rules_processed: processed_upto(
                        start.rules_processed,
                        ids.deep_view(),
                        i as int,
                    ),
                    ..start
                }),
            decreases ids@.len() - i,
        {
            self.rules_processed.insert(at(ids, i).clone(), true);
            i = i + 1;
        }
    }

    /// Whether the rules have seen an id.
    pub fn is_rules_processed(&self, id: &str) -> (r: bool)
        ensures
            r == lookup(self.deep_view().rules_processed, id@) is Some,
    {
        self.rules_processed.contains_key(id)
    }
}

pub(crate) fn copy_bytes(v: &Vec<u8>) -> (r: Vec<u8>)
    ensures
        r@ == v@,
        r.deep_view() == v.deep_view(),
{
    let mut r: Vec<u8> = Vec::new();
    let mut i: usize = 0;
    while i < v.len()
        invariant
            i <= v@.len(),
            r@ == v@.subrange(0, i as int),
        decreases v@.len() - i,
    {
        assert(v@.subrange(0, i as int).push(v@[i as int]) =~= v@.subrange(0, i + 1));
        r.push(v[i]);
        i = i + 1;
    }
    assert(r@ =~= v@);
    assert(r.deep_view() =~= v.deep_view());
    r
}

fn count_emails_in(emails: &Vec<Email>, mailbox_id: &str) -> (n: usize)
    ensures
        n == count_in(emails.deep_view(), mailbox_id@, emails@.len() as int),
{
    let mut n: usize = 0;
    let mut i: usize = 0;
    while i < emails.len()
        invariant
            n <= i <= emails@.len(),
            n == count_in(emails.deep_view(), mailbox_id@, i as int),
        decreases emails@.len() - i,
    {
        if at(emails.as_slice(), i).mailbox_ids.contains_key(mailbox_id) {
            n = n + 1;
        }
        i = i + 1;
    }
    n
}

// ---------------------------------------------------------------------------
// What holds of every change
// ---------------------------------------------------------------------------

proof fn lemma_emails_put(
    table: Seq<(Seq<char>, EmailV)>,
    emails: Seq<EmailV>,
    k: int,
    id: Seq<char>,
)
    requires
        0 <= k <= emails.len(),
    ensures
        match lookup(emails_put_upto(table, emails, k), id) {
            Some(e) => lookup(table, id) == Some(e) || exists|i: int|
                0 <= i < k && #[trigger] emails[i] == e && e.id == id,
            None => true,
        },
        forall|i: int|
            0 <= i < k && (#[trigger] emails[i]).id == id && (forall|j: int|
                i < j < k ==> (#[trigger] emails[j]).id != id) ==> lookup(
                emails_put_upto(table, emails, k),
                id,
            ) == Some(emails[i]),
    decreases k,
{
    if k > 0 {
        lemma_emails_put(table, emails, k - 1, id);
        lemma_lookup_with_entry(
            emails_put_upto(table, emails, k - 1),
            emails[k - 1].id,
            emails[k - 1],
            id,
        );
    }
}

/// A message that was put is what its id gives, if no later one of the same list
/// has that id.
pub proof fn law_put_then_get(c: CacheV, emails: Seq<EmailV>, i: int)
    requires
        0 <= i < emails.len(),
        forall|j: int| i < j < emails.len() ==> (#[trigger] emails[j]).id != emails[i].id,
    ensures
        lookup(emails_put_upto(c.emails, emails, emails.len() as int), emails[i].id) == Some(
            emails[i],
        ),
{
    lemma_emails_put(c.emails, emails, emails.len() as int, emails[i].id);
}

proof fn lemma_with_then_without(s: Seq<(Seq<char>, bool)>, k: Seq<char>, v: bool)
    requires
        lookup(s, k) is None,
    ensures
        without_key(with_entry(s, k, v), k) == s,
{
    lemma_key_index(s, k, 0);
    let t = s.push((k, v));
    assert(with_entry(s, k, v) == t);
    lemma_without_prefix(s, t, k, s.len() as int);
    assert(without_key_upto(t, k, t.len() as int) == without_key_upto(t, k, s.len() as int));
}

proof fn lemma_without_prefix(
    s: Seq<(Seq<char>, bool)>,
    t: Seq<(Seq<char>, bool)>,
    k: Seq<char>,
    n: int,
)
    requires
        0 <= n <= s.len() <= t.len(),
        forall|i: int| 0 <= i < s.len() ==> #[trigger] t[i] == s[i],
        forall|i: int| 0 <= i < s.len() ==> (#[trigger] s[i]).0 != k,
    ensures
        without_key_upto(t, k, n) == s.subrange(0, n),
    decreases n,
{
    if n > 0 {
        lemma_without_prefix(s, t, k, n - 1);
        assert(t[n - 1] == s[n - 1]);
        assert(s.subrange(0, n - 1).push(s[n - 1]) =~= s.subrange(0, n));
    } else {
        assert(s.subrange(0, 0) =~= Seq::empty());
    }
    assert(s.subrange(0, s.len() as int) =~= s);
}

proof fn lemma_entry_set_twice<V>(s: Seq<(Seq<char>, V)>, k: Seq<char>, a: V)
    requires
        lookup(s, k) is Some,
    ensures
        lookup(with_entry(s, k, a), k) == Some(a),
        with_entry(with_entry(s, k, a), k, lookup(s, k)->0) == s,
{
    lemma_key_index(s, k, 0);
    let i = key_index(s, k, 0);
    let t = with_entry(s, k, a);
    lemma_lookup_with_entry(s, k, a, k);
    lemma_key_index(t, k, 0);
    let j = key_index(t, k, 0);
    assert(j == i) by {
        if j < i {
            assert(t[j].0 == k);
            assert(s[j].0 != k);
        } else if j > i {
            assert(t[i].0 == k);
        }
    }
    assert(with_entry(t, k, s[i].1) =~= s);
}

/// Marking an unread message as read and then as unread again restores the
/// tables, if none of its mailboxes was counted as without unread messages.
pub proof fn law_seen_round_trip(c: CacheV, id: Seq<char>)
    requires
        lookup(c.emails, id) is Some,
        !is_seen(lookup(c.emails, id)->0),
        c.mailboxes is Some ==> forall|i: int|
            0 <= i < c.mailboxes->0.len() && lookup(
                (lookup(c.emails, id)->0).mailbox_ids,
                (#[trigger] c.mailboxes->0[i]).id,
            ) is Some ==> c.mailboxes->0[i].unread_emails > 0,
    ensures
        marked_seen(c, id, true) is Some,
        marked_seen(marked_seen(c, id, true)->0, id, false) == Some(c),
{
    let e = lookup(c.emails, id)->0;
    let read = with_keyword(e, "$seen"@, true);
    let d = marked_seen(c, id, true)->0;
    lemma_entry_set_twice(c.emails, id, read);
    lemma_lookup_with_entry(e.keywords, "$seen"@, true, "$seen"@);
    assert(is_seen(read));
    lemma_with_then_without(e.keywords, "$seen"@, true);
    assert(with_keyword(read, "$seen"@, false) == e);
    let f = marked_seen(d, id, false)->0;
    assert(f.emails == c.emails);
    match c.mailboxes {
        Some(ms) => {
            let once = ms.map_values(|m: MailboxV| seen_counted(m, e, true));
            let twice = once.map_values(|m: MailboxV| seen_counted(m, read, false));
            assert(twice =~= ms);
            assert(f.mailboxes == Some(twice));
        },
        None => {},
    }
}

/// Flagging a message and taking the flag away again restores the tables.
pub proof fn law_flag_round_trip(c: CacheV, id: Seq<char>)
    requires
        lookup(c.emails, id) is Some,
        !is_flagged(lookup(c.emails, id)->0),
    ensures
        set_flag(c, id, true) is Some,
        set_flag(set_flag(c, id, true)->0, id, false) == Some(c),
{
    let e = lookup(c.emails, id)->0;
    let flagged = with_keyword(e, "$flagged"@, true);
    lemma_entry_set_twice(c.emails, id, flagged);
    lemma_lookup_with_entry(e.keywords, "$flagged"@, true, "$flagged"@);
    lemma_with_then_without(e.keywords, "$flagged"@, true);
    assert(with_keyword(flagged, "$flagged"@, false) == e);
}

proof fn lemma_without_id(ids: Seq<Seq<char>>, id: Seq<char>, k: int)
    requires
        0 <= k <= ids.len(),
    ensures
        !without_id_upto(ids, id, k).contains(id),
        forall|x: Seq<char>|
            x != id && ids.subrange(0, k).contains(x) ==> #[trigger] without_id_upto(
                ids,
                id,
                k,
            ).contains(x),
    decreases k,
{
    if k > 0 {
        lemma_without_id(ids, id, k - 1);
        let before = without_id_upto(ids, id, k - 1);
        let now = without_id_upto(ids, id, k);
        assert forall|x: Seq<char>|
            x != id && ids.subrange(0, k).contains(x) implies #[trigger] now.contains(x) by {
            let j = choose|j: int| 0 <= j < ids.subrange(0, k).len() && ids.subrange(0, k)[j] == x;
            if j < k - 1 {
                assert(ids.subrange(0, k - 1)[j] == x);
                assert(before.contains(x));
                let m = choose|m: int| 0 <= m < before.len() && before[m] == x;
                assert(now[m] == x);
            } else {
                assert(now[now.len() - 1] == x);
            }
        }
        if now.contains(id) {
            let m = choose|m: int| 0 <= m < now.len() && now[m] == id;
            if m < before.len() {
                assert(before[m] == id);
            }
        }
    }
}

proof fn lemma_left(
    index: Seq<(Seq<char>, Seq<Seq<char>>)>,
    from: Seq<(Seq<char>, bool)>,
    id: Seq<char>,
    k: int,
    q: Seq<char>,
)
    requires
        0 <= k <= from.len(),
    ensures
        (exists|i: int| 0 <= i < k && #[trigger] from[i].0 == q) ==> match lookup(
            left_upto(index, from, id, k),
            q,
        ) {
            Some(ids) => !ids.contains(id),
            None => true,
        },
        (forall|i: int| 0 <= i < k ==> #[trigger] from[i].0 != q) ==> lookup(
            left_upto(index, from, id, k),
            q,
        ) == lookup(index, q),
    decreases k,
{
    if k > 0 {
        lemma_left(index, from, id, k - 1, q);
        let before = left_upto(index, from, id, k - 1);
        let m = from[k - 1].0;
        match lookup(before, m) {
            Some(ids) => {
                lemma_lookup_with_entry(before, m, without_id(ids, id), q);
                lemma_without_id(ids, id, ids.len() as int);
            },
            None => {},
        }
    }
}

/// A moved message is in its new mailbox alone: that mailbox's index names it
/// first and no second time, and the index of no mailbox it was in names it.
pub proof fn law_move_puts_in_one_place(c: CacheV, id: Seq<char>, to: Seq<char>)
    requires
        lookup(c.emails, id) is Some,
    ensures
        ({
            let e = lookup(c.emails, id)->0;
            let d = moved(c, id, to)->0;
            let target = lookup(d.mailbox_index, to)->0;
            &&& moved(c, id, to) is Some
            &&& lookup(d.emails, id) is Some
            &&& (lookup(d.emails, id)->0).mailbox_ids == seq![(to, true)]
            &&& lookup(d.mailbox_index, to) is Some
            &&& target.len() > 0 && target[0] == id
            &&& !target.subrange(1, target.len() as int).contains(id)
            &&& forall|q: Seq<char>|
                q != to && lookup(e.mailbox_ids, q) is Some ==> (match #[trigger] lookup(
                    d.mailbox_index,
                    q,
                ) {
                    Some(ids) => !ids.contains(id),
                    None => true,
                })
        }),
{
    let e = lookup(c.emails, id)->0;
    let d = moved(c, id, to)->0;
    let left = left_upto(c.mailbox_index, e.mailbox_ids, id, e.mailbox_ids.len() as int);
    let ids = match lookup(left, to) {
        Some(ids) => ids,
        None => Seq::empty(),
    };
    let rest = without_id(ids, id);
    let target = seq![id] + rest;
    lemma_lookup_with_entry(c.emails, id, EmailV { mailbox_ids: seq![(to, true)], ..e }, id);
    lemma_lookup_with_entry(left, to, target, to);
    lemma_without_id(ids, id, ids.len() as int);
    assert(target.subrange(1, target.len() as int) =~= rest);
    assert forall|q: Seq<char>| q != to && lookup(e.mailbox_ids, q) is Some implies (
    match #[trigger] lookup(d.mailbox_index, q) {
        Some(ids) => !ids.contains(id),
        None => true,
    }) by {
        lemma_lookup_with_entry(left, to, target, q);
        lemma_lookup_present(e.mailbox_ids, q);
        lemma_left(c.mailbox_index, e.mailbox_ids, id, e.mailbox_ids.len() as int, q);
    }
}

/// A destroyed message is gone, and the index of no mailbox it was in names it.
pub proof fn law_destroy_forgets(c: CacheV, id: Seq<char>)
    requires
        lookup(c.emails, id) is Some,
    ensures
        ({
            let e = lookup(c.emails, id)->0;
            let d = destroyed(c, id)->0;
            &&& destroyed(c, id) is Some
            &&& lookup(d.emails, id) is None
            &&& destroyed(d, id) is None
            &&& forall|q: Seq<char>|
                lookup(e.mailbox_ids, q) is Some ==> (match #[trigger] lookup(d.mailbox_index, q) {
                    Some(ids) => !ids.contains(id),
                    None => true,
                })
        }),
{
    let e = lookup(c.emails, id)->0;
    let d = destroyed(c, id)->0;
    lemma_lookup_without_key(c.emails, id, id);
    assert forall|q: Seq<char>| lookup(e.mailbox_ids, q) is Some implies (match #[trigger] lookup(
        d.mailbox_index,
        q,
    ) {
        Some(ids) => !ids.contains(id),
        None => true,
    }) by {
        lemma_lookup_present(e.mailbox_ids, q);
        lemma_left(c.mailbox_index, e.mailbox_ids, id, e.mailbox_ids.len() as int, q);
    }
}

/// A change to one message leaves every other message as it was.
pub proof fn law_changes_touch_one_message(c: CacheV, id: Seq<char>, to: Seq<char>, q: Seq<char>)
    requires
        lookup(c.emails, id) is Some,
        q != id,
    ensures
        forall|seen: bool|
            #[trigger] marked_seen(c, id, seen) is Some ==> lookup(
                marked_seen(c, id, seen)->0.emails,
                q,
            ) == lookup(c.emails, q),
        forall|flagged: bool|
            #[trigger] set_flag(c, id, flagged) is Some ==> lookup(
                set_flag(c, id, flagged)->0.emails,
                q,
            ) == lookup(c.emails, q),
        lookup(moved(c, id, to)->0.emails, q) == lookup(c.emails, q),
        lookup(destroyed(c, id)->0.emails, q) == lookup(c.emails, q),
{
    let e = lookup(c.emails, id)->0;
    lemma_lookup_with_entry(c.emails, id, with_keyword(e, "$seen"@, true), q);
    lemma_lookup_with_entry(c.emails, id, with_keyword(e, "$seen"@, false), q);
    lemma_lookup_with_entry(c.emails, id, with_keyword(e, "$flagged"@, true), q);
    lemma_lookup_with_entry(c.emails, id, with_keyword(e, "$flagged"@, false), q);
    lemma_lookup_with_entry(c.emails, id, EmailV { mailbox_ids: seq![(to, true)], ..e }, q);
    lemma_lookup_without_key(c.emails, id, q);
}

proof fn lemma_read_upto(
    table: Seq<(Seq<char>, EmailV)>,
    ids: Seq<Seq<char>>,
    k: int,
    id: Seq<char>,
)
    requires
        0 <= k <= ids.len(),
    ensures
        ids.subrange(0, k).contains(id) ==> match lookup(read_upto(table, ids, k).0, id) {
            Some(e) => is_seen(e),
            None => true,
        },
        lookup(read_upto(table, ids, k).0, id) is Some <==> lookup(table, id) is Some,
    decreases k,
{
    if k > 0 {
        lemma_read_upto(table, ids, k - 1, id);
        let (before, _) = read_upto(table, ids, k - 1);
        let last = ids[k - 1];
        if ids.subrange(0, k).contains(id) && id != last {
            let j = choose|j: int| 0 <= j < ids.subrange(0, k).len() && ids.subrange(0, k)[j] == id;
            assert(ids.subrange(0, k - 1)[j] == id);
        }
        match lookup(before, last) {
            Some(e) => {
                let read = with_keyword(e, "$seen"@, true);
                lemma_lookup_with_entry(before, last, read, id);
                lemma_lookup_with_entry(e.keywords, "$seen"@, true, "$seen"@);
            },
            None => {},
        }
    }
}

/// Once a mailbox is marked as read, every message that its index names and that
/// is known is read.
pub proof fn law_mailbox_read_reads_all(c: CacheV, mailbox_id: Seq<char>, id: Seq<char>)
    requires
        ids_in(c, mailbox_id).contains(id),
    ensures
        match lookup(mailbox_read(c, mailbox_id).0.emails, id) {
            Some(e) => is_seen(e),
            None => lookup(c.emails, id) is None,
        },
{
    let ids = ids_in(c, mailbox_id);
    lemma_read_upto(c.emails, ids, ids.len() as int, id);
    assert(ids.subrange(0, ids.len() as int) =~= ids);
}

/// Taking an operation out of a queue keeps the order of the others.
pub proof fn lemma_unqueued(q: Seq<(u64, Seq<u8>)>, seq: u64, k: int)
    requires
        0 <= k <= q.len(),
        queue_ok(q),
    ensures
        queue_ok(unqueued_upto(q, seq, k)),
        forall|i: int|
            0 <= i < unqueued_upto(q, seq, k).len() ==> (#[trigger] unqueued_upto(q, seq, k)[i]).0
                != seq && q.subrange(0, k).contains(unqueued_upto(q, seq, k)[i]),
    decreases k,
{
    if k > 0 {
        lemma_unqueued(q, seq, k - 1);
        let before = unqueued_upto(q, seq, k - 1);
        let now = unqueued_upto(q, seq, k);
        assert forall|i: int| 0 <= i < now.len() implies (#[trigger] now[i]).0 != seq && q.subrange(
            0,
            k,
        ).contains(now[i]) by {
            if i < before.len() {
                assert(now[i] == before[i]);
                let pre = q.subrange(0, k - 1);
                let j = choose|j: int| 0 <= j < pre.len() && pre[j] == before[i];
                assert(q.subrange(0, k)[j] == now[i]);
            } else {
                assert(q.subrange(0, k)[k - 1] == now[i]);
            }
        }
        assert forall|i: int, j: int| 0 <= i < j < now.len() implies (#[trigger] now[i]).0 < (
        #[trigger] now[j]).0 by {
            if j < before.len() {
                assert(now[i] == before[i]);
                assert(now[j] == before[j]);
            } else {
                assert(now[i] == before[i]);
                let pre = q.subrange(0, k - 1);
                let m = choose|m: int| 0 <= m < pre.len() && pre[m] == before[i];
                assert(q[m].0 < q[k - 1].0);
            }
        }
    }
}

/// Operations wait in the order in which they came: a new one gets the highest
/// number and stands last, and removing one keeps the order of the others.
pub proof fn law_queue_keeps_order(q: Seq<(u64, Seq<u8>)>, payload: Seq<u8>, seq: u64)
    requires
        queue_ok(q),
        q.len() > 0 ==> q.last().0 < u64::MAX,
    ensures
        queue_ok(queued(q, payload)),
        queued(q, payload) == q.push((next_seq(q), payload)),
        forall|i: int| 0 <= i < q.len() ==> (#[trigger] q[i]).0 < next_seq(q),
        queue_ok(unqueued_upto(q, seq, q.len() as int)),
        forall|i: int|
            0 <= i < unqueued_upto(q, seq, q.len() as int).len() ==> (#[trigger] unqueued_upto(
                q,
                seq,
                q.len() as int,
            )[i]).0 != seq,
{
    lemma_unqueued(q, seq, q.len() as int);
    assert forall|i: int| 0 <= i < q.len() implies (#[trigger] q[i]).0 < next_seq(q) by {
        if i < q.len() - 1 {
            assert(q[i].0 < q[q.len() - 1].0);
        }
    }
}

proof fn lemma_processed(table: Seq<(Seq<char>, bool)>, ids: Seq<Seq<char>>, k: int, q: Seq<char>)
    requires
        0 <= k <= ids.len(),
    ensures
        lookup(processed_upto(table, ids, k), q) is Some <==> (lookup(table, q) is Some
            || ids.subrange(0, k).contains(q)),
    decreases k,
{
    if k > 0 {
        lemma_processed(table, ids, k - 1, q);
        lemma_lookup_with_entry(processed_upto(table, ids, k - 1), ids[k - 1], true, q);
        if ids.subrange(0, k).contains(q) && q != ids[k - 1] {
            let j = choose|j: int| 0 <= j < ids.subrange(0, k).len() && ids.subrange(0, k)[j] == q;
            assert(ids.subrange(0, k - 1)[j] == q);
        }
        if ids.subrange(0, k - 1).contains(q) {
            let pre = ids.subrange(0, k - 1);
            let j = choose|j: int| 0 <= j < pre.len() && pre[j] == q;
            assert(ids.subrange(0, k)[j] == q);
        }
        assert(ids.subrange(0, k)[k - 1] == ids[k - 1]);
    }
}

/// The rules see a message once: after an id is noted it is never given out as
/// unseen, and no other id is noted by the way.
pub proof fn law_processed_once(table: Seq<(Seq<char>, bool)>, ids: Seq<Seq<char>>, q: Seq<char>)
    ensures
        lookup(processed_upto(table, ids, ids.len() as int), q) is Some <==> (lookup(table, q)
            is Some || ids.contains(q)),
{
    lemma_processed(table, ids, ids.len() as int, q);
    assert(ids.subrange(0, ids.len() as int) =~= ids);
}

} // verus!
