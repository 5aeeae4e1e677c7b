//! Listing a mailbox and running the rules on it: what is asked of the server, what is
//! told and what is kept.

use vstd::prelude::*;

use crate::backend::queue::rule_mutations_upto;
use crate::backend::tasks::{
    added_upto, asked_for, moves_upto, rules_watch, staying_upto, thread_count_upto,
    threads_of_upto, unseen_upto, BackendEnvV, BackendStateV, CommandTaskV, EmailsTaskV, EventV,
    IdsTaskV, MutateTaskV, OutcomeV, OutputV, QueryV, RemoteTaskV, ReplyV, RequestV, RulesTaskV,
    TaskV, TurnV,
};
use crate::backend::{BackendCommandV, BackendResponseV, QueuedMutationV, RulesRunResultV};
use crate::cache::{law_put_then_get, CacheV};
use crate::data::{lemma_lookup_with_entry, lookup};
use crate::jmap::types::{EmailQueryResultV, EmailV, MailboxV};
use crate::laws::retention::whole_page;
use crate::laws::server::{begun, carried_out_by, lemma_goes, lemma_turn, one_step, talked, turn_of};
use crate::pattern::regex_found;

verus! {

// ---------------------------------------------------------------------------
// A page of a mailbox
// ---------------------------------------------------------------------------

/// The command for a page of a mailbox.
pub open spec fn page_command(
    origin: Seq<char>,
    mailbox_id: Seq<char>,
    page_size: u32,
    position: u32,
    search: Option<Seq<char>>,
    after: Option<Seq<char>>,
    before: Option<Seq<char>>,
) -> BackendCommandV {
    BackendCommandV::QueryEmails {
        origin,
        mailbox_id,
        page_size,
        position,
        search_query: search,
        received_after: after,
        received_before: before,
    }
}

/// A query asks the server for just the page that was wanted, fetches its messages with
/// the headers that the rules look at, and tells them with what the server said of the
/// page, in the order of the page.
pub proof fn law_page_is_fetched_and_told(
    b: BackendStateV,
    env: BackendEnvV,
    origin: Seq<char>,
    mailbox_id: Seq<char>,
    page_size: u32,
    position: u32,
    search: Option<Seq<char>>,
    after: Option<Seq<char>>,
    before: Option<Seq<char>>,
    page: EmailQueryResultV,
    emails: Seq<EmailV>,
)
    requires
        !b.offline,
        b.cache is None,
        env.rules.len() == 0,
        0 < page.ids.len() <= 50,
        forall|i: int| 0 <= i < emails.len() ==> (#[trigger] emails[i]).thread_id is None,
    ensures
        ({
            let cmd = page_command(
                origin,
                mailbox_id,
                page_size,
                position,
                search,
                after,
                before,
            );
            let m = begun(b, cmd);
            let replies = seq![ReplyV::Page(Ok(page)), ReplyV::Emails(Ok(emails))];
            &&& talked(m, env, replies, 0).1 == OutputV::Ask(
                RequestV::QueryEmails {
                    mailbox_id,
                    page_size,
                    position,
                    search_query: search,
                    received_after: after,
                    received_before: before,
                },
            )
            &&& talked(m, env, replies, 1).1 == OutputV::Ask(
                RequestV::GetEmails { ids: page.ids, extra: env.custom_headers },
            )
            &&& talked(m, env, replies, 2).1 == OutputV::Tell(
                BackendResponseV::Emails {
                    mailbox_id,
                    emails: Ok(emails),
                    total: page.total,
                    position: page.position,
                    loaded: page.ids.len() as u32,
                    thread_counts: Seq::empty(),
                },
            )
            &&& talked(m, env, replies, 2).0.stack.len() == 0
        }),
{
    let cmd = page_command(origin, mailbox_id, page_size, position, search, after, before);
    let none = Seq::<TaskV>::empty();
    let m = begun(b, cmd);
    let replies = seq![ReplyV::Page(Ok(page)), ReplyV::Emails(Ok(emails))];
    let plain = search is None && after is None && before is None;
    let query = QueryV { mailbox_id, position, plain };
    let start = TaskV::Command(CommandTaskV::Start { cmd });
    let paging = TaskV::Command(CommandTaskV::Page { query });
    let wait = TaskV::Command(CommandTaskV::Emails { query, page });
    let get = TaskV::Emails(
        EmailsTaskV {
            ids: page.ids,
            next: 0,
            out: Seq::empty(),
            extra: env.custom_headers,
            for_rules: false,
        },
    );
    assert(turn_of(b, env, start, EventV::Go) == (
        b,
        TurnV::Call {
            task: paging,
            request: RequestV::QueryEmails {
                mailbox_id,
                page_size,
                position,
                search_query: search,
                received_after: after,
                received_before: before,
            },
        },
    )) by {
        reveal(turn_of);
    }
    assert(turn_of(b, env, paging, EventV::Reply(replies[0])) == (
        b,
        TurnV::Spawn { task: wait, child: get },
    )) by {
        reveal(turn_of);
    }
    lemma_fetch(b, env, get, page.ids, env.custom_headers, emails, false);
    let response = BackendResponseV::Emails {
        mailbox_id,
        emails: Ok(emails),
        total: page.total,
        position: page.position,
        loaded: page.ids.len() as u32,
        thread_counts: Seq::empty(),
    };
    assert(turn_of(b, env, wait, EventV::Returned(OutcomeV::Emails(Ok(emails)))) == (
        b,
        TurnV::Say { task: None, response },
    )) by {
        reveal(turn_of);
        lemma_no_threads(emails, emails.len() as int);
    }
    assert(m.stack =~= none.push(start));
    lemma_turn(m, env, None, none, start);
    lemma_goes(m, env, None, 4);
    let m1 = one_step(m, env, None).0;
    assert(talked(m, env, replies, 0) == one_step(m, env, None));
    lemma_turn(m1, env, Some(replies[0]), none, paging);
    let m2 = one_step(m1, env, Some(replies[0])).0;
    lemma_turn(m2, env, None, none.push(wait), get);
    lemma_goes(m1, env, Some(replies[0]), 4);
    lemma_goes(m2, env, None, 3);
    let m3 = one_step(m2, env, None).0;
    assert(talked(m, env, replies, 1) == one_step(m2, env, None));
    lemma_turn(m3, env, Some(replies[1]), none.push(wait), get);
    let m4 = one_step(m3, env, Some(replies[1])).0;
    lemma_turn(m4, env, None, none, wait);
    lemma_goes(m3, env, Some(replies[1]), 4);
    lemma_goes(m4, env, None, 3);
    assert(talked(m, env, replies, 2) == one_step(m4, env, None));
}

proof fn lemma_fetch(
    b: BackendStateV,
    env: BackendEnvV,
    get: TaskV,
    ids: Seq<Seq<char>>,
    extra: Seq<Seq<char>>,
    emails: Seq<EmailV>,
    for_rules: bool,
)
    requires
        0 < ids.len() <= 50,
        get == TaskV::Emails(EmailsTaskV { ids, next: 0, out: Seq::empty(), extra, for_rules }),
    ensures
        turn_of(b, env, get, EventV::Go) == (
            b,
            TurnV::Call {
                task: get,
                request: if for_rules {
                    RequestV::GetEmailsForRules { ids, extra }
                } else {
                    RequestV::GetEmails { ids, extra }
                },
            },
        ),
        turn_of(b, env, get, EventV::Reply(ReplyV::Emails(Ok(emails)))) == (
            b,
            TurnV::Return(OutcomeV::Emails(Ok(emails))),
        ),
{
    reveal(turn_of);
    assert(ids.subrange(0, ids.len() as int) =~= ids);
    assert(Seq::<EmailV>::empty() + emails =~= emails);
}

proof fn lemma_no_threads(emails: Seq<EmailV>, k: int)
    requires
        0 <= k <= emails.len(),
        forall|i: int| 0 <= i < emails.len() ==> (#[trigger] emails[i]).thread_id is None,
    ensures
        threads_of_upto(emails, k).len() == 0,
    decreases k,
{
    if k > 0 {
        lemma_no_threads(emails, k - 1);
        assert(emails[k - 1].thread_id is None);
    }
}

/// A page that was fetched is kept: each of its messages is then known as it came, and
/// the first page of a query without search or dates is what the mailbox lists.
pub proof fn law_fetched_page_is_kept(
    b: BackendStateV,
    env: BackendEnvV,
    query: QueryV,
    page: EmailQueryResultV,
    emails: Seq<EmailV>,
    i: int,
)
    requires
        b.cache is Some,
        env.rules.len() == 0,
        0 <= i < emails.len(),
        forall|j: int| i < j < emails.len() ==> (#[trigger] emails[j]).id != emails[i].id,
    ensures
        ({
            let fetched = EventV::Returned(OutcomeV::Emails(Ok(emails)));
            let wait = TaskV::Command(CommandTaskV::Emails { query, page });
            let after = turn_of(b, env, wait, fetched).0;
            let c = after.cache->0;
            &&& after.cache is Some
            &&& lookup(c.emails, emails[i].id) == Some(emails[i])
            &&& page.position == 0 && query.plain ==> lookup(c.mailbox_index, query.mailbox_id)
                == Some(emails.map_values(|e: EmailV| e.id))
            &&& !(page.position == 0 && query.plain) ==> c.mailbox_index
                == b.cache->0.mailbox_index
            &&& c.op_queue == b.cache->0.op_queue
            &&& after.mailboxes == b.mailboxes
        }),
{
    reveal(turn_of);
    let c = b.cache->0;
    law_put_then_get(c, emails, i);
    lemma_lookup_with_entry(
        c.mailbox_index,
        query.mailbox_id,
        emails.map_values(|e: EmailV| e.id),
        query.mailbox_id,
    );
}

// ---------------------------------------------------------------------------
// Threads
// ---------------------------------------------------------------------------

/// The message of an id among some, if there is one.
pub open spec fn known(emails: Seq<EmailV>, id: Seq<char>) -> Option<EmailV> {
    crate::backend::tasks::last_email(emails, id, emails.len() as int)
}

proof fn lemma_known(emails: Seq<EmailV>, id: Seq<char>, n: int)
    requires
        0 <= n <= emails.len(),
    ensures
        match crate::backend::tasks::last_email(emails, id, n) {
            Some(e) => e.id == id && emails.contains(e),
            None => forall|i: int| 0 <= i < n ==> (#[trigger] emails[i]).id != id,
        },
    decreases n,
{
    if n > 0 {
        lemma_known(emails, id, n - 1);
        assert(emails.contains(emails[n - 1]));
    }
}

/// What is known of an id is a message of that id; nothing is known of an id only where
/// no message has it.
pub proof fn law_known_message_has_the_id(emails: Seq<EmailV>, id: Seq<char>)
    ensures
        match known(emails, id) {
            Some(e) => e.id == id && emails.contains(e),
            None => forall|i: int| 0 <= i < emails.len() ==> (#[trigger] emails[i]).id != id,
        },
{
    lemma_known(emails, id, emails.len() as int);
}

/// Whether a message of a thread is in a mailbox.
pub open spec fn counted(emails: Seq<EmailV>, mailbox: Seq<char>, id: Seq<char>) -> bool {
    known(emails, id) is Some && lookup(known(emails, id)->0.mailbox_ids, mailbox) is Some
}

/// Whether a message of a thread is in a mailbox and unread.
pub open spec fn counted_unread(emails: Seq<EmailV>, mailbox: Seq<char>, id: Seq<char>) -> bool {
    counted(emails, mailbox, id) && lookup(known(emails, id)->0.keywords, "$seen"@) is None
}

/// A thread counts those of its messages that are in the mailbox, and of these those that
/// are unread.
pub proof fn law_thread_counts_its_messages(
    ids: Seq<Seq<char>>,
    emails: Seq<EmailV>,
    mailbox: Seq<char>,
)
    requires
        ids.len() <= usize::MAX,
    ensures
        thread_count_upto(ids, emails, mailbox, ids.len() as int) == (
            ids.filter(|id: Seq<char>| counted_unread(emails, mailbox, id)).len() as usize,
            ids.filter(|id: Seq<char>| counted(emails, mailbox, id)).len() as usize,
        ),
{
    lemma_thread_count(ids, emails, mailbox, ids.len() as int);
    assert(ids.take(ids.len() as int) =~= ids);
}

proof fn lemma_thread_count(
    ids: Seq<Seq<char>>,
    emails: Seq<EmailV>,
    mailbox: Seq<char>,
    k: int,
)
    requires
        0 <= k <= ids.len() <= usize::MAX,
    ensures
        ({
            let unread = |id: Seq<char>| counted_unread(emails, mailbox, id);
            let total = |id: Seq<char>| counted(emails, mailbox, id);
            &&& thread_count_upto(ids, emails, mailbox, k) == (
                ids.take(k).filter(unread).len() as usize,
                ids.take(k).filter(total).len() as usize,
            )
            &&& ids.take(k).filter(unread).len() <= k
            &&& ids.take(k).filter(total).len() <= k
        }),
    decreases k,
{
    reveal(Seq::filter);
    if k > 0 {
        lemma_thread_count(ids, emails, mailbox, k - 1);
        assert(ids.take(k).drop_last() =~= ids.take(k - 1));
        assert(ids.take(k).last() == ids[k - 1]);
    } else {
        assert(ids.take(0) =~= Seq::empty());
    }
}

// ---------------------------------------------------------------------------
// Rules on what is fetched
// ---------------------------------------------------------------------------

/// The rules run by themselves on a mailbox exactly when there are rules and the pattern
/// for mailboxes is found in its name.
pub proof fn law_rules_watch_named_mailboxes(
    b: BackendStateV,
    env: BackendEnvV,
    m: MailboxV,
    rest: Seq<MailboxV>,
)
    requires
        b.mailboxes == seq![m] + rest,
    ensures
        rules_watch(b, env, m.id) <==> env.rules.len() > 0 && regex_found(
            env.rules_mailbox_regex,
            m.name,
        ),
{
    assert(b.mailboxes[0] == m);
}

proof fn lemma_unseen(cache: Option<CacheV>, emails: Seq<EmailV>, k: int)
    requires
        0 <= k <= emails.len(),
    ensures
        unseen_upto(cache, emails, k) == emails.take(k).filter(
            |e: EmailV| cache is None || lookup(cache->0.rules_processed, e.id) is None,
        ),
    decreases k,
{
    reveal(Seq::filter);
    if k > 0 {
        lemma_unseen(cache, emails, k - 1);
        assert(emails.take(k).drop_last() =~= emails.take(k - 1));
        assert(emails.take(k).last() == emails[k - 1]);
    } else {
        assert(emails.take(0) =~= Seq::empty());
    }
}

proof fn lemma_moves(ops: Seq<QueuedMutationV>, id: Seq<char>, k: int)
    requires
        0 <= k <= ops.len(),
    ensures
        moves_upto(ops, id, k) <==> exists|i: int|
            0 <= i < k && (#[trigger] ops[i]) is MoveEmail && ops[i]->MoveEmail_id == id,
    decreases k,
{
    if k > 0 {
        lemma_moves(ops, id, k - 1);
        if ops[k - 1] is MoveEmail && ops[k - 1]->MoveEmail_id == id {
            assert(ops[k - 1] is MoveEmail);
        }
    }
}

/// Whether some change moves a message.
pub open spec fn moved_by(ops: Seq<QueuedMutationV>, id: Seq<char>) -> bool {
    exists|i: int|
        0 <= i < ops.len() && (#[trigger] ops[i]) is MoveEmail && ops[i]->MoveEmail_id == id
}

proof fn lemma_staying(emails: Seq<EmailV>, ops: Seq<QueuedMutationV>, k: int)
    requires
        0 <= k <= emails.len(),
    ensures
        staying_upto(emails, ops, k) == emails.take(k).filter(|e: EmailV| !moved_by(ops, e.id)),
    decreases k,
{
    reveal(Seq::filter);
    if k > 0 {
        lemma_staying(emails, ops, k - 1);
        lemma_moves(ops, emails[k - 1].id, ops.len() as int);
        assert(emails.take(k).drop_last() =~= emails.take(k - 1));
        assert(emails.take(k).last() == emails[k - 1]);
    } else {
        assert(emails.take(0) =~= Seq::empty());
    }
}

/// Where the rules watch a mailbox, what is fetched of it is told without the messages
/// that a rule has moved away, and those that stay are not given to the rules again; the
/// rules are given just those that they have not seen.
pub proof fn law_moved_messages_leave_the_page(
    b: BackendStateV,
    env: BackendEnvV,
    query: QueryV,
    page: EmailQueryResultV,
    emails: Seq<EmailV>,
    ops: Seq<QueuedMutationV>,
    r: Result<(), Seq<char>>,
    id: Seq<char>,
)
    requires
        ops.len() <= usize::MAX,
        forall|i: int| 0 <= i < emails.len() ==> (#[trigger] emails[i]).thread_id is None,
    ensures
        ({
            let next = ops.len() as usize;
            let wait = TaskV::Command(
                CommandTaskV::QueryRules { query, page, emails, ops, next },
            );
            let (after, turn) = turn_of(b, env, wait, EventV::Returned(OutcomeV::Unit(r)));
            let staying = emails.filter(|e: EmailV| !moved_by(ops, e.id));
            &&& turn == (TurnV::Say {
                task: None,
                response: BackendResponseV::Emails {
                    mailbox_id: query.mailbox_id,
                    emails: Ok(staying),
                    total: page.total,
                    position: page.position,
                    loaded: page.ids.len() as u32,
                    thread_counts: Seq::empty(),
                },
            })
            &&& b.cache is Some ==> after.cache is Some && (lookup(
                after.cache->0.rules_processed,
                id,
            ) is Some <==> lookup(b.cache->0.rules_processed, id) is Some
                || staying.map_values(|e: EmailV| e.id).contains(id))
        }),
        unseen_upto(b.cache, emails, emails.len() as int) == emails.filter(
            |e: EmailV| b.cache is None || lookup(b.cache->0.rules_processed, e.id) is None,
        ),
{
    let n = emails.len() as int;
    assert(emails.take(n) =~= emails);
    lemma_unseen(b.cache, emails, n);
    lemma_staying(emails, ops, n);
    let staying = emails.filter(|e: EmailV| !moved_by(ops, e.id));
    let ids = staying.map_values(|e: EmailV| e.id);
    assert forall|i: int| 0 <= i < staying.len() implies (#[trigger] staying[i]).thread_id is None
        by {
        lemma_from_filter(emails, |e: EmailV| !moved_by(ops, e.id), i);
    }
    lemma_no_threads(staying, staying.len() as int);
    if b.cache is Some {
        crate::cache::law_processed_once(b.cache->0.rules_processed, ids, id);
    }
    reveal(turn_of);
}

proof fn lemma_from_filter(s: Seq<EmailV>, p: spec_fn(EmailV) -> bool, i: int)
    requires
        0 <= i < s.filter(p).len(),
        forall|j: int| 0 <= j < s.len() ==> (#[trigger] s[j]).thread_id is None,
    ensures
        s.filter(p)[i].thread_id is None,
    decreases s.len(),
{
    reveal(Seq::filter);
    let t = s.drop_last();
    assert forall|j: int| 0 <= j < t.len() implies (#[trigger] t[j]).thread_id is None by {
        assert(t[j] == s[j]);
    }
    if i < t.filter(p).len() {
        lemma_from_filter(t, p, i);
    } else {
        assert(s[s.len() - 1].thread_id is None);
    }
}

// ---------------------------------------------------------------------------
// Running the rules on a mailbox
// ---------------------------------------------------------------------------

/// Running the rules asks for all messages of the mailbox, each by itself, with the
/// headers that the rules look at; then the changes that the rules ask for are sent, the
/// first of them first. Where they ask for none, it is told how many messages were looked
/// at, and nothing is changed.
pub proof fn law_rules_run_asks_and_acts(
    b: BackendStateV,
    env: BackendEnvV,
    origin: Seq<char>,
    mailbox_id: Seq<char>,
    mailbox_name: Seq<char>,
    page: EmailQueryResultV,
    emails: Seq<EmailV>,
)
    requires
        !b.offline,
        b.cache is None,
        env.rules.len() > 0,
        whole_page(page),
        page.ids.no_duplicates(),
        emails.len() <= usize::MAX,
    ensures
        ({
            let cmd = BackendCommandV::RunRulesForMailbox { origin, mailbox_id, mailbox_name };
            let m = begun(b, cmd);
            let replies = seq![ReplyV::Page(Ok(page)), ReplyV::Emails(Ok(emails))];
            let apps = asked_for(b, env, emails);
            let ops = rule_mutations_upto(apps, b.mailboxes, b.next_op_id, apps.len() as int).0;
            let out = talked(m, env, replies, 2).1;
            &&& talked(m, env, replies, 0).1 == OutputV::Ask(
                RequestV::QueryUncollapsed { mailbox_id, limit: 500, position: 0 },
            )
            &&& talked(m, env, replies, 1).1 == OutputV::Ask(
                RequestV::GetEmailsForRules { ids: page.ids, extra: env.custom_headers },
            )
            &&& ops.len() > 0 && carried_out_by(ops[0]) is Some ==> out == OutputV::Ask(
                carried_out_by(ops[0])->0,
            )
            &&& apps.len() == 0 ==> out == OutputV::Tell(
                BackendResponseV::RulesRun {
                    mailbox_id,
                    mailbox_name,
                    result: Ok(
                        RulesRunResultV {
                            scanned: emails.len() as usize,
                            matched_rules: 0,
                            actions: 0,
                        },
                    ),
                },
            )
        }),
{
    let cmd = BackendCommandV::RunRulesForMailbox { origin, mailbox_id, mailbox_name };
    let none = Seq::<TaskV>::empty();
    let m = begun(b, cmd);
    let replies = seq![ReplyV::Page(Ok(page)), ReplyV::Emails(Ok(emails))];
    let apps = asked_for(b, env, emails);
    let (ops, counter) = rule_mutations_upto(apps, b.mailboxes, b.next_op_id, apps.len() as int);
    let start = TaskV::Command(CommandTaskV::Start { cmd });
    let top = TaskV::Command(CommandTaskV::Rules { mailbox_id, mailbox_name });
    let begin = TaskV::Rules(RulesTaskV::Start { mailbox_id });
    let collecting = TaskV::Rules(RulesTaskV::Ids);
    let ids = TaskV::Ids(IdsTaskV::Start { mailbox_id });
    let paging = TaskV::Ids(IdsTaskV::Paging { mailbox_id, ids: Seq::empty() });
    let reading = TaskV::Rules(RulesTaskV::Emails);
    let get = TaskV::Emails(
        EmailsTaskV {
            ids: page.ids,
            next: 0,
            out: Seq::empty(),
            extra: env.custom_headers,
            for_rules: true,
        },
    );
    lemma_ids_of_page(page.ids);
    lemma_fetch(b, env, get, page.ids, env.custom_headers, emails, true);
    assert(turn_of(b, env, start, EventV::Go) == (b, TurnV::Spawn { task: top, child: begin }))
        by {
        reveal(turn_of);
    }
    assert(turn_of(b, env, begin, EventV::Go) == (
        b,
        TurnV::Spawn { task: collecting, child: ids },
    )) by {
        reveal(turn_of);
    }
    assert(turn_of(b, env, ids, EventV::Go) == (
        b,
        TurnV::Call {
            task: paging,
            request: RequestV::QueryUncollapsed { mailbox_id, limit: 500, position: 0 },
        },
    )) by {
        reveal(turn_of);
    }
    assert(turn_of(b, env, paging, EventV::Reply(replies[0])) == (
        b,
        TurnV::Return(OutcomeV::Ids(Ok(page.ids))),
    )) by {
        reveal(turn_of);
    }
    assert(turn_of(b, env, collecting, EventV::Returned(OutcomeV::Ids(Ok(page.ids)))) == (
        b,
        TurnV::Spawn { task: reading, child: get },
    )) by {
        reveal(turn_of);
    }
    assert(m.stack =~= none.push(start));
    lemma_turn(m, env, None, none, start);
    let m1 = one_step(m, env, None).0;
    lemma_turn(m1, env, None, none.push(top), begin);
    let m2 = one_step(m1, env, None).0;
    lemma_turn(m2, env, None, none.push(top).push(collecting), ids);
    lemma_goes(m, env, None, 4);
    lemma_goes(m1, env, None, 3);
    lemma_goes(m2, env, None, 2);
    let m3 = one_step(m2, env, None).0;
    assert(talked(m, env, replies, 0) == one_step(m2, env, None));
    lemma_turn(m3, env, Some(replies[0]), none.push(top).push(collecting), paging);
    let m4 = one_step(m3, env, Some(replies[0])).0;
    lemma_turn(m4, env, None, none.push(top), collecting);
    let m5 = one_step(m4, env, None).0;
    lemma_turn(m5, env, None, none.push(top).push(reading), get);
    lemma_goes(m3, env, Some(replies[0]), 4);
    lemma_goes(m4, env, None, 3);
    lemma_goes(m5, env, None, 2);
    let m6 = one_step(m5, env, None).0;
    assert(talked(m, env, replies, 1) == one_step(m5, env, None));
    lemma_turn(m6, env, Some(replies[1]), none.push(top).push(reading), get);
    let m7 = one_step(m6, env, Some(replies[1])).0;
    lemma_turn(m7, env, None, none.push(top), reading);
    lemma_goes(m6, env, Some(replies[1]), 4);
    lemma_goes(m7, env, None, 3);
    let m8 = one_step(m7, env, None).0;
    let c = BackendStateV { next_op_id: counter, ..b };
    let fetched = EventV::Returned(OutcomeV::Emails(Ok(emails)));
    if ops.len() > 0 && carried_out_by(ops[0]) is Some {
        let op = ops[0];
        let mutate = TaskV::Mutate(MutateTaskV::Start { op });
        let sent = TaskV::Mutate(MutateTaskV::Sent { op, seq: None });
        let remote = TaskV::Remote(RemoteTaskV::Start { op });
        let (c2, turn) = turn_of(b, env, reading, fetched);
        assert(c2 == c && turn is Spawn && turn->child == mutate) by {
            reveal(turn_of);
        }
        let task = turn->Spawn_task;
        assert(turn_of(c, env, mutate, EventV::Go) == (
            c,
            TurnV::Spawn { task: sent, child: remote },
        )) by {
            reveal(turn_of);
        }
        assert(turn_of(c, env, remote, EventV::Go) == (
            c,
            TurnV::Call {
                task: TaskV::Remote(RemoteTaskV::Sent),
                request: carried_out_by(op)->0,
            },
        )) by {
            reveal(turn_of);
        }
        lemma_turn(m8, env, None, none.push(top).push(task), mutate);
        let m9 = one_step(m8, env, None).0;
        lemma_turn(m9, env, None, none.push(top).push(task).push(sent), remote);
        lemma_goes(m8, env, None, 2);
        lemma_goes(m9, env, None, 1);
    }
    if apps.len() == 0 {
        let done = OutcomeV::RulesRun(
            Ok(
                RulesRunResultV {
                    scanned: emails.len() as usize,
                    matched_rules: 0,
                    actions: 0,
                },
            ),
        );
        assert(turn_of(b, env, reading, fetched) == (c, TurnV::Return(done))) by {
            reveal(turn_of);
            assert(ops.len() == 0);
        }
        assert(turn_of(c, env, top, EventV::Returned(done)) == (
            c,
            TurnV::Say {
                task: None,
                response: BackendResponseV::RulesRun {
                    mailbox_id,
                    mailbox_name,
                    result: done->RulesRun_0,
                },
            },
        )) by {
            reveal(turn_of);
        }
        lemma_turn(m8, env, None, none, top);
        lemma_goes(m8, env, None, 2);
    }
}

proof fn lemma_ids_of_page(ids: Seq<Seq<char>>)
    requires
        ids.no_duplicates(),
    ensures
        added_upto(Seq::empty(), ids, ids.len() as int) == ids,
{
    lemma_added_all(ids, ids.len() as int);
    assert(ids.take(ids.len() as int) =~= ids);
}

proof fn lemma_added_all(ids: Seq<Seq<char>>, k: int)
    requires
        ids.no_duplicates(),
        0 <= k <= ids.len(),
    ensures
        added_upto(Seq::empty(), ids, k) == ids.take(k),
    decreases k,
{
    if k > 0 {
        lemma_added_all(ids, k - 1);
        assert(!ids.take(k - 1).contains(ids[k - 1])) by {
            let t = ids.take(k - 1);
            if t.contains(ids[k - 1]) {
                let j = choose|j: int| 0 <= j < t.len() && t[j] == ids[k - 1];
                assert(ids[j] == ids[k - 1]);
            }
        }
        assert(ids.take(k) =~= ids.take(k - 1).push(ids[k - 1]));
    } else {
        assert(ids.take(0) =~= Seq::empty());
    }
}

/// Marking a mailbox as read marks all of its messages on the server, and tells how many
/// they are.
pub proof fn law_read_mailbox_reaches_the_server(
    b: BackendStateV,
    env: BackendEnvV,
    mailbox_id: Seq<char>,
    mailbox_name: Seq<char>,
    page: EmailQueryResultV,
    r: Result<(), Seq<char>>,
)
    requires
        !b.offline,
        b.cache is None,
        whole_page(page),
        page.ids.no_duplicates(),
    ensures
        ({
            let m = begun(b, BackendCommandV::MarkMailboxRead { mailbox_id, mailbox_name });
            let listed = ReplyV::Page(Ok(page));
            let replies = seq![listed, listed, ReplyV::Done(r)];
            let list = RequestV::QueryUncollapsed { mailbox_id, limit: 500, position: 0 };
            &&& talked(m, env, replies, 0).1 == OutputV::Ask(list)
            &&& talked(m, env, replies, 1).1 == OutputV::Ask(list)
            &&& talked(m, env, replies, 2).1 == OutputV::Ask(
                RequestV::MarkAllRead { ids: page.ids },
            )
            &&& talked(m, env, replies, 3).1 == OutputV::Tell(
                BackendResponseV::MailboxMarkedRead {
                    mailbox_id,
                    mailbox_name,
                    updated: page.ids.len() as usize,
                    result: r,
                },
            )
        }),
{
    let cmd = BackendCommandV::MarkMailboxRead { mailbox_id, mailbox_name };
    let op = QueuedMutationV::MarkMailboxRead { mailbox_id, mailbox_name };
    let none = Seq::<TaskV>::empty();
    let m = begun(b, cmd);
    let listed = ReplyV::Page(Ok(page));
    let replies = seq![listed, listed, ReplyV::Done(r)];
    let list = RequestV::QueryUncollapsed { mailbox_id, limit: 500, position: 0 };
    let start = TaskV::Command(CommandTaskV::Start { cmd });
    let top = TaskV::Command(CommandTaskV::MailboxIds { cmd });
    let wait = TaskV::Command(
        CommandTaskV::Mutation { cmd, updated: page.ids.len() as usize },
    );
    let ids = TaskV::Ids(IdsTaskV::Start { mailbox_id });
    let paging = TaskV::Ids(IdsTaskV::Paging { mailbox_id, ids: Seq::empty() });
    let mutate = TaskV::Mutate(MutateTaskV::Start { op });
    let sent = TaskV::Mutate(MutateTaskV::Sent { op, seq: None });
    let begin = TaskV::Remote(RemoteTaskV::Start { op });
    let mailbox = TaskV::Remote(RemoteTaskV::Mailbox);
    let remote = TaskV::Remote(RemoteTaskV::Sent);
    let found = OutcomeV::Ids(Ok(page.ids));
    lemma_ids_of_page(page.ids);
    assert(turn_of(b, env, start, EventV::Go) == (b, TurnV::Spawn { task: top, child: ids })) by {
        reveal(turn_of);
    }
    assert(turn_of(b, env, ids, EventV::Go) == (b, TurnV::Call { task: paging, request: list })) by {
        reveal(turn_of);
    }
    assert(turn_of(b, env, paging, EventV::Reply(listed)) == (b, TurnV::Return(found))) by {
        reveal(turn_of);
    }
    assert(turn_of(b, env, top, EventV::Returned(found)) == (
        b,
        TurnV::Spawn { task: wait, child: mutate },
    )) by {
        reveal(turn_of);
    }
    assert(turn_of(b, env, mutate, EventV::Go) == (b, TurnV::Spawn { task: sent, child: begin }))
        by {
        reveal(turn_of);
    }
    assert(turn_of(b, env, begin, EventV::Go) == (b, TurnV::Spawn { task: mailbox, child: ids }))
        by {
        reveal(turn_of);
    }
    assert(turn_of(b, env, mailbox, EventV::Returned(found)) == (
        b,
        TurnV::Call { task: remote, request: RequestV::MarkAllRead { ids: page.ids } },
    )) by {
        reveal(turn_of);
    }
    let unit = OutcomeV::Unit(r);
    assert(turn_of(b, env, remote, EventV::Reply(ReplyV::Done(r))) == (b, TurnV::Return(unit))) by {
        reveal(turn_of);
    }
    assert(turn_of(b, env, sent, EventV::Returned(unit)) == (b, TurnV::Return(unit))) by {
        reveal(turn_of);
    }
    assert(turn_of(b, env, wait, EventV::Returned(unit)) == (
        b,
        TurnV::Say {
            task: None,
            response: BackendResponseV::MailboxMarkedRead {
                mailbox_id,
                mailbox_name,
                updated: page.ids.len() as usize,
                result: r,
            },
        },
    )) by {
        reveal(turn_of);
    }
    assert(m.stack =~= none.push(start));
    lemma_turn(m, env, None, none, start);
    let m1 = one_step(m, env, None).0;
    lemma_turn(m1, env, None, none.push(top), ids);
    lemma_goes(m, env, None, 4);
    lemma_goes(m1, env, None, 3);
    let m2 = one_step(m1, env, None).0;
    assert(talked(m, env, replies, 0) == one_step(m1, env, None));
    lemma_turn(m2, env, Some(listed), none.push(top), paging);
    let m3 = one_step(m2, env, Some(listed)).0;
    lemma_turn(m3, env, None, none, top);
    let m4 = one_step(m3, env, None).0;
    lemma_turn(m4, env, None, none.push(wait), mutate);
    let m5 = one_step(m4, env, None).0;
    lemma_turn(m5, env, None, none.push(wait).push(sent), begin);
    let m6 = one_step(m5, env, None).0;
    lemma_turn(m6, env, None, none.push(wait).push(sent).push(mailbox), ids);
    lemma_goes(m2, env, Some(listed), 4);
    lemma_goes(m3, env, None, 3);
    lemma_goes(m4, env, None, 2);
    lemma_goes(m5, env, None, 1);
    lemma_goes(m6, env, None, 0);
    let m7 = one_step(m6, env, None).0;
    assert(talked(m, env, replies, 1) == one_step(m6, env, None));
    lemma_turn(m7, env, Some(listed), none.push(wait).push(sent).push(mailbox), paging);
    let m8 = one_step(m7, env, Some(listed)).0;
    lemma_turn(m8, env, None, none.push(wait).push(sent), mailbox);
    lemma_goes(m7, env, Some(listed), 4);
    lemma_goes(m8, env, None, 3);
    let m9 = one_step(m8, env, None).0;
    assert(talked(m, env, replies, 2) == one_step(m8, env, None));
    let done = ReplyV::Done(r);
    lemma_turn(m9, env, Some(done), none.push(wait).push(sent), remote);
    let n1 = one_step(m9, env, Some(done)).0;
    lemma_turn(n1, env, None, none.push(wait), sent);
    let n2 = one_step(n1, env, None).0;
    lemma_turn(n2, env, None, none, wait);
    lemma_goes(m9, env, Some(done), 4);
    lemma_goes(n1, env, None, 3);
    lemma_goes(n2, env, None, 2);
    assert(talked(m, env, replies, 3) == one_step(n2, env, None));
}

} // verus!
