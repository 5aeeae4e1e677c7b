//! Retention: a policy lets go of the messages of its folder that are older than it
//! keeps them, a preview lists exactly those, and carrying it out destroys exactly what
//! the preview lists.

use vstd::prelude::*;

use crate::backend::dates::{days_since_epoch, received_days, timestamp_days};
use crate::backend::queue::{id_after, retention_mutations_upto};
use crate::backend::tasks::{
    candidate_le, candidates_ok, law_candidates_in_order, law_expired_messages_are_let_go,
    looked_upto, mailbox_named, BackendEnvV, BackendStateV, BackendV, CommandTaskV, EmailsTaskV,
    EventV, ExpireTaskV, ExpiryV, MutateTaskV, OutcomeV, OutputV, RemoteTaskV, ReplyV, RequestV,
    TaskV, TurnV,
};
use crate::backend::{
    BackendCommandV, BackendResponseV, QueuedMutationV, RetentionCandidateV,
    RetentionExecutionResultV, RetentionPreviewResultV,
};
use crate::config::RetentionPolicyConfigV;
use crate::jmap::types::{EmailQueryResultV, EmailV};
use crate::laws::server::{begun, goes_on, lemma_goes, lemma_turn, one_step, talked, turn_of};
use crate::rules::resolved_mailbox;
use crate::sorting::sorted;
use crate::text::{digits_value, without_plus};

verus! {

// ---------------------------------------------------------------------------
// Days
// ---------------------------------------------------------------------------

/// The value of a decimal digit.
pub open spec fn digit(c: char) -> int {
    c as int - '0' as int
}

/// A timestamp that begins with a year of four digits, a month of two and a day of two
/// was on the day of that date; days are counted from the first of January 1970.
pub proof fn law_timestamp_is_on_its_date(s: Seq<char>)
    requires
        s.len() >= 10,
        forall|i: int| 0 <= i < 10 && i != 4 && i != 7 ==> '0' <= #[trigger] s[i] <= '9',
        s[4] <= '\u{7f}',
        s[7] <= '\u{7f}',
    ensures
        timestamp_days(s) == days_since_epoch(
            1000 * digit(s[0]) + 100 * digit(s[1]) + 10 * digit(s[2]) + digit(s[3]),
            10 * digit(s[5]) + digit(s[6]),
            10 * digit(s[8]) + digit(s[9]),
        ),
        days_since_epoch(1970, 1, 1) == Some(0int),
{
    let y = s.subrange(0, 4);
    let m = s.subrange(5, 7);
    let d = s.subrange(8, 10);
    assert(y[0] == s[0] && y[1] == s[1] && y[2] == s[2] && y[3] == s[3]);
    assert(m[0] == s[5] && m[1] == s[6]);
    assert(d[0] == s[8] && d[1] == s[9]);
    assert('0' <= s[0] <= '9' && '0' <= s[1] <= '9' && '0' <= s[2] <= '9' && '0' <= s[3] <= '9');
    assert('0' <= s[5] <= '9' && '0' <= s[6] <= '9');
    assert('0' <= s[8] <= '9' && '0' <= s[9] <= '9');
    reveal_with_fuel(digits_value, 5);
    assert(forall|i: int| 0 <= i < 10 ==> #[trigger] s[i] <= '\u{7f}');
    assert(without_plus(y) == y && without_plus(m) == m && without_plus(d) == d);
}

// ---------------------------------------------------------------------------
// What a policy lets go
// ---------------------------------------------------------------------------

/// Whether more days than a policy keeps messages for have gone by since a message was
/// received.
pub open spec fn outlived(e: EmailV, today: int, days: int) -> bool {
    match received_days(e) {
        Some(d) => today - d > days,
        None => false,
    }
}

/// Of the messages of a page, a policy of so many days lets exactly those go that were
/// received more days ago: today less the day they were received is above the policy's
/// days. A message whose day is not known is kept.
pub proof fn law_policy_lets_old_messages_go(x: ExpiryV, emails: Seq<EmailV>, id: Seq<char>)
    requires
        candidates_ok(x),
    ensures
        ({
            let y = looked_upto(x, emails, emails.len() as int);
            &&& y.seen.contains(id) <==> x.seen.contains(id) || exists|j: int|
                0 <= j < emails.len() && (#[trigger] emails[j]).id == id && outlived(
                    emails[j],
                    x.today as int,
                    x.days as int,
                )
            &&& y.candidates.map_values(|c: RetentionCandidateV| c.id) == y.seen
            &&& y.seen.no_duplicates()
        }),
{
    law_expired_messages_are_let_go(x, emails, emails.len() as int);
    let y = looked_upto(x, emails, emails.len() as int);
    if exists|j: int|
        0 <= j < emails.len() && (#[trigger] emails[j]).id == id && outlived(
            emails[j],
            x.today as int,
            x.days as int,
        ) {
        let j = choose|j: int|
            0 <= j < emails.len() && (#[trigger] emails[j]).id == id && outlived(
                emails[j],
                x.today as int,
                x.days as int,
            );
        assert(crate::backend::tasks::expired(emails[j], x.today, x.days));
        assert(y.seen.contains(emails[j].id));
    }
    if y.seen.contains(id) && !x.seen.contains(id) {
        let j = choose|j: int|
            0 <= j < emails.len() && (#[trigger] emails[j]).id == id
                && crate::backend::tasks::expired(emails[j], x.today, x.days);
        assert(outlived(emails[j], x.today as int, x.days as int));
    }
    lemma_kept_by_look(x, emails, emails.len() as int);
    assert forall|i: int| 0 <= i < x.seen.len() implies y.seen.contains(#[trigger] x.seen[i]) by {
        assert(y.seen[i] == x.seen[i]);
    }
    if x.seen.contains(id) {
        let i = choose|i: int| 0 <= i < x.seen.len() && x.seen[i] == id;
        assert(y.seen.contains(x.seen[i]));
    }
}

proof fn lemma_kept_by_look(x: ExpiryV, emails: Seq<EmailV>, k: int)
    requires
        0 <= k <= emails.len(),
    ensures
        ({
            let y = looked_upto(x, emails, k);
            &&& x.seen.len() <= y.seen.len()
            &&& forall|i: int| 0 <= i < x.seen.len() ==> #[trigger] y.seen[i] == x.seen[i]
            &&& y.policies == x.policies && y.next == x.next && y.today == x.today
            &&& y.mailbox_id == x.mailbox_id && y.mailbox_name == x.mailbox_name
            &&& y.policy_name == x.policy_name && y.days == x.days
        }),
    decreases k,
{
    if k > 0 {
        lemma_kept_by_look(x, emails, k - 1);
    }
}

/// A message that a policy lets go is listed under the name of the policy and of the
/// mailbox, with its day, its first sender and its subject.
pub proof fn law_candidate_describes_its_message(x: ExpiryV, emails: Seq<EmailV>, k: int)
    requires
        0 <= k <= emails.len(),
    ensures
        ({
            let y = looked_upto(x, emails, k);
            &&& x.candidates.len() <= y.candidates.len()
            &&& forall|i: int|
                x.candidates.len() <= i < y.candidates.len() ==> {
                    let c = #[trigger] y.candidates[i];
                    &&& c.policy == x.policy_name
                    &&& c.mailbox == x.mailbox_name
                    &&& exists|j: int|
                        0 <= j < k && (#[trigger] emails[j]).id == c.id && c.subject == (match emails[j].subject {
                            Some(s) => s,
                            None => "(no subject)"@,
                        }) && (match emails[j].received_at {
                            Some(d) => d.len() >= 10 ==> c.received_at == d.subrange(0, 10),
                            None => true,
                        }) && (match emails[j].from {
                            Some(l) => l.len() > 0 ==> c.from == crate::jmap::types::shown_address(
                                l[0],
                            ),
                            None => true,
                        })
                }
        }),
    decreases k,
{
    if k > 0 {
        law_candidate_describes_its_message(x, emails, k - 1);
        lemma_kept_by_look(x, emails, k - 1);
        let z = looked_upto(x, emails, k - 1);
        let y = looked_upto(x, emails, k);
        let e = emails[k - 1];
        assert forall|i: int| x.candidates.len() <= i < y.candidates.len() implies ({
            let c = #[trigger] y.candidates[i];
            &&& c.policy == x.policy_name
            &&& c.mailbox == x.mailbox_name
            &&& exists|j: int|
                0 <= j < k && (#[trigger] emails[j]).id == c.id && c.subject == (match emails[j].subject {
                    Some(s) => s,
                    None => "(no subject)"@,
                }) && (match emails[j].received_at {
                    Some(d) => d.len() >= 10 ==> c.received_at == d.subrange(0, 10),
                    None => true,
                }) && (match emails[j].from {
                    Some(l) => l.len() > 0 ==> c.from == crate::jmap::types::shown_address(l[0]),
                    None => true,
                })
        }) by {
            if i < z.candidates.len() {
                assert(y.candidates[i] == z.candidates[i]);
                let c = z.candidates[i];
                assert(c.policy == x.policy_name);
            } else {
                let c = y.candidates[i];
                assert(c == crate::backend::tasks::candidate(e, z));
                match e.received_at {
                    Some(d) => {
                        assert(d.subrange(0, d.len() as int) =~= d);
                    },
                    None => {},
                }
                assert(emails[k - 1].id == c.id);
            }
        }
    }
}

// ---------------------------------------------------------------------------
// From the command to the server
// ---------------------------------------------------------------------------

/// The replies of a day on which one page holds all messages of the folder, followed by
/// confirmations.
pub open spec fn one_page(
    today: i64,
    page: EmailQueryResultV,
    emails: Seq<EmailV>,
    n: nat,
) -> Seq<ReplyV> {
    Seq::new(
        3 + n,
        |i: int|
            if i == 0 {
                ReplyV::Day(Ok(today))
            } else if i == 1 {
                ReplyV::Page(Ok(page))
            } else if i == 2 {
                ReplyV::Emails(Ok(emails))
            } else {
                ReplyV::Done(Ok(()))
            },
    )
}

/// Whether a page holds all messages of a folder, few enough to be fetched at once.
pub open spec fn whole_page(page: EmailQueryResultV) -> bool {
    &&& 0 < page.ids.len() <= 50
    &&& page.position == 0
    &&& page.total == Some(page.ids.len() as u32)
}

/// What is known when the one policy is taken up.
spec fn taken_up(
    b: BackendStateV,
    p: RetentionPolicyConfigV,
    today: i64,
) -> ExpiryV {
    let mailbox_id = resolved_mailbox(p.folder, b.mailboxes)->0;
    ExpiryV {
        policies: seq![p],
        next: 1,
        today,
        mailbox_id,
        mailbox_name: match mailbox_named(b.mailboxes, mailbox_id, 0) {
            Some(m) => m.name,
            None => p.folder,
        },
        policy_name: p.name,
        days: p.days,
        seen: Seq::empty(),
        candidates: Seq::empty(),
    }
}

/// What is let go, in the order in which it is listed.
spec fn let_go(
    b: BackendStateV,
    p: RetentionPolicyConfigV,
    today: i64,
    emails: Seq<EmailV>,
) -> Seq<RetentionCandidateV> {
    sorted(
        looked_upto(taken_up(b, p, today), emails, emails.len() as int).candidates,
        |a: RetentionCandidateV, c: RetentionCandidateV| candidate_le(a, c),
    )
}

proof fn lemma_let_go(
    b: BackendStateV,
    p: RetentionPolicyConfigV,
    today: i64,
    emails: Seq<EmailV>,
    id: Seq<char>,
)
    ensures
        names_message(let_go(b, p, today, emails), id) <==> exists|j: int|
            0 <= j < emails.len() && (#[trigger] emails[j]).id == id && outlived(
                emails[j],
                today as int,
                p.days as int,
            ),
{
    let x = taken_up(b, p, today);
    let y = looked_upto(x, emails, emails.len() as int);
    let ids = |c: RetentionCandidateV| c.id;
    let cs = let_go(b, p, today, emails);
    assert(x.candidates.map_values(ids) =~= x.seen);
    assert(candidates_ok(x));
    law_policy_lets_old_messages_go(x, emails, id);
    law_candidates_in_order(y.candidates);
    assert(!x.seen.contains(id));
    cs.to_multiset_ensures();
    y.candidates.to_multiset_ensures();
    assert(y.candidates.map_values(ids) == y.seen);
    if exists|i: int| 0 <= i < cs.len() && (#[trigger] cs[i]).id == id {
        let i = choose|i: int| 0 <= i < cs.len() && (#[trigger] cs[i]).id == id;
        assert(cs.contains(cs[i]));
        assert(cs.to_multiset().count(cs[i]) > 0);
        assert(y.candidates.contains(cs[i]));
        let j = choose|j: int| 0 <= j < y.candidates.len() && y.candidates[j] == cs[i];
        assert(y.seen[j] == id);
        assert(y.seen.contains(id));
    }
    if y.seen.contains(id) {
        let j = choose|j: int| 0 <= j < y.seen.len() && y.seen[j] == id;
        assert(y.candidates.map_values(ids)[j] == y.candidates[j].id);
        assert(y.candidates.contains(y.candidates[j]));
        assert(y.candidates.to_multiset().count(y.candidates[j]) > 0);
        assert(cs.contains(y.candidates[j]));
        let i = choose|i: int| 0 <= i < cs.len() && cs[i] == y.candidates[j];
        assert(cs[i].id == id);
    }
}

/// What the work makes of the day, the page and the messages, up to where it has found
/// what is to be let go.
proof fn lemma_found(
    b: BackendStateV,
    env: BackendEnvV,
    cmd: BackendCommandV,
    wait: CommandTaskV,
    p: RetentionPolicyConfigV,
    today: i64,
    page: EmailQueryResultV,
    emails: Seq<EmailV>,
    n: nat,
)
    requires
        !b.offline,
        resolved_mailbox(p.folder, b.mailboxes) is Some,
        whole_page(page),
        (cmd == (BackendCommandV::PreviewRetentionExpiry { policies: seq![p] }) && wait
            == CommandTaskV::ExpirePreview) || (cmd == (BackendCommandV::ExecuteRetentionExpiry {
            policies: seq![p],
        }) && wait == CommandTaskV::Expire),
    ensures
        ({
            let m = begun(b, cmd);
            let replies = one_page(today, page, emails, n);
            let done = BackendV {
                state: b,
                stack: Seq::<TaskV>::empty().push(TaskV::Command(wait)),
                returned: Some(OutcomeV::Candidates(Ok(let_go(b, p, today, emails)))),
            };
            &&& talked(m, env, replies, 0).1 == OutputV::Ask(RequestV::Today)
            &&& talked(m, env, replies, 1).1 == OutputV::Ask(
                RequestV::QueryUncollapsed {
                    mailbox_id: resolved_mailbox(p.folder, b.mailboxes)->0,
                    limit: 500,
                    position: 0,
                },
            )
            &&& talked(m, env, replies, 2).1 == OutputV::Ask(
                RequestV::GetEmails { ids: page.ids, extra: Seq::empty() },
            )
            &&& talked(m, env, replies, 3) == goes_on(done, env, None, 2)
        }),
{
    let none = Seq::<TaskV>::empty();
    let policies = seq![p];
    let x = taken_up(b, p, today);
    let y = looked_upto(x, emails, emails.len() as int);
    let m = begun(b, cmd);
    let replies = one_page(today, page, emails, n);
    let start = TaskV::Command(CommandTaskV::Start { cmd });
    let top = TaskV::Command(wait);
    let begin = TaskV::Expire(ExpireTaskV::Start { policies });
    let day = TaskV::Expire(ExpireTaskV::Day { policies });
    let paging = TaskV::Expire(ExpireTaskV::Page { expiry: x });
    let fetching = TaskV::Expire(ExpireTaskV::Emails { expiry: x, page });
    let fetch = EmailsTaskV {
        ids: page.ids,
        next: 0,
        out: Seq::empty(),
        extra: Seq::empty(),
        for_rules: false,
    };
    let get = TaskV::Emails(fetch);
    let found = TurnV::Return(OutcomeV::Candidates(Ok(let_go(b, p, today, emails))));
    assert(turn_of(b, env, start, EventV::Go) == (b, TurnV::Spawn { task: top, child: begin }))
        by {
        reveal(turn_of);
    }
    assert(turn_of(b, env, begin, EventV::Go) == (
        b,
        TurnV::Call { task: day, request: RequestV::Today },
    )) by {
        reveal(turn_of);
    }
    assert(turn_of(b, env, day, EventV::Reply(replies[0])) == (
        b,
        TurnV::Call {
            task: paging,
            request: RequestV::QueryUncollapsed {
                mailbox_id: x.mailbox_id,
                limit: 500,
                position: 0,
            },
        },
    )) by {
        reveal(turn_of);
        reveal_with_fuel(crate::backend::tasks::usable_policy, 2);
        assert(policies[0] == p);
    }
    assert(turn_of(b, env, paging, EventV::Reply(replies[1])) == (
        b,
        TurnV::Spawn { task: fetching, child: get },
    )) by {
        reveal(turn_of);
    }
    assert(turn_of(b, env, get, EventV::Go) == (
        b,
        TurnV::Call {
            task: get,
            request: RequestV::GetEmails { ids: page.ids, extra: Seq::empty() },
        },
    )) by {
        reveal(turn_of);
        assert(page.ids.subrange(0, page.ids.len() as int) =~= page.ids);
    }
    assert(turn_of(b, env, get, EventV::Reply(replies[2])) == (
        b,
        TurnV::Return(OutcomeV::Emails(Ok(emails))),
    )) by {
        reveal(turn_of);
        assert(Seq::<EmailV>::empty() + emails =~= emails);
    }
    assert(turn_of(b, env, fetching, EventV::Returned(OutcomeV::Emails(Ok(emails)))) == (b, found))
        by {
        reveal(turn_of);
        lemma_kept_by_look(x, emails, emails.len() as int);
        reveal_with_fuel(crate::backend::tasks::usable_policy, 2);
    }
    assert(m.stack =~= none.push(start));
    lemma_turn(m, env, None, none, start);
    let m1 = one_step(m, env, None).0;
    lemma_turn(m1, env, None, none.push(top), begin);
    lemma_goes(m, env, None, 4);
    lemma_goes(m1, env, None, 3);
    let m2 = one_step(m1, env, None).0;
    assert(talked(m, env, replies, 0) == one_step(m1, env, None));
    lemma_turn(m2, env, Some(replies[0]), none.push(top), day);
    lemma_goes(m2, env, Some(replies[0]), 4);
    let m3 = one_step(m2, env, Some(replies[0])).0;
    assert(talked(m, env, replies, 1) == one_step(m2, env, Some(replies[0])));
    lemma_turn(m3, env, Some(replies[1]), none.push(top), paging);
    let m4 = one_step(m3, env, Some(replies[1])).0;
    lemma_turn(m4, env, None, none.push(top).push(fetching), get);
    lemma_goes(m3, env, Some(replies[1]), 4);
    lemma_goes(m4, env, None, 3);
    let m5 = one_step(m4, env, None).0;
    assert(talked(m, env, replies, 2) == one_step(m4, env, None));
    lemma_turn(m5, env, Some(replies[2]), none.push(top).push(fetching), get);
    let m6 = one_step(m5, env, Some(replies[2])).0;
    lemma_turn(m6, env, None, none.push(top), fetching);
    lemma_goes(m5, env, Some(replies[2]), 4);
    lemma_goes(m6, env, None, 3);
}

/// What a preview lists, if it was told.
pub open spec fn previewed(out: OutputV) -> Option<Seq<RetentionCandidateV>> {
    match out {
        OutputV::Tell(BackendResponseV::RetentionPreview { result: Ok(r) }) => Some(r.candidates),
        _ => None,
    }
}

/// Whether one of those that are listed is a message.
pub open spec fn names_message(cs: Seq<RetentionCandidateV>, id: Seq<char>) -> bool {
    exists|i: int| 0 <= i < cs.len() && (#[trigger] cs[i]).id == id
}

/// A preview of a policy asks for the day, for the messages of the policy's folder, and
/// then lists exactly those that have outlived the policy. It asks for no change.
pub proof fn law_preview_lists_what_has_outlived_the_policy(
    b: BackendStateV,
    env: BackendEnvV,
    p: RetentionPolicyConfigV,
    today: i64,
    page: EmailQueryResultV,
    emails: Seq<EmailV>,
    id: Seq<char>,
)
    requires
        !b.offline,
        resolved_mailbox(p.folder, b.mailboxes) is Some,
        whole_page(page),
    ensures
        ({
            let m = begun(b, BackendCommandV::PreviewRetentionExpiry { policies: seq![p] });
            let replies = one_page(today, page, emails, 0);
            &&& talked(m, env, replies, 0).1 == OutputV::Ask(RequestV::Today)
            &&& talked(m, env, replies, 1).1 == OutputV::Ask(
                RequestV::QueryUncollapsed {
                    mailbox_id: resolved_mailbox(p.folder, b.mailboxes)->0,
                    limit: 500,
                    position: 0,
                },
            )
            &&& talked(m, env, replies, 2).1 == OutputV::Ask(
                RequestV::GetEmails { ids: page.ids, extra: Seq::empty() },
            )
            &&& talked(m, env, replies, 3).0.state == b
            &&& previewed(talked(m, env, replies, 3).1) is Some
            &&& names_message(previewed(talked(m, env, replies, 3).1)->0, id) <==> exists|j: int|
                0 <= j < emails.len() && (#[trigger] emails[j]).id == id && outlived(
                    emails[j],
                    today as int,
                    p.days as int,
                )
        }),
{
    let cmd = BackendCommandV::PreviewRetentionExpiry { policies: seq![p] };
    let wait = TaskV::Command(CommandTaskV::ExpirePreview);
    let cs = let_go(b, p, today, emails);
    let none = Seq::<TaskV>::empty();
    lemma_found(b, env, cmd, CommandTaskV::ExpirePreview, p, today, page, emails, 0);
    lemma_let_go(b, p, today, emails, id);
    let done = BackendV {
        state: b,
        stack: none.push(wait),
        returned: Some(OutcomeV::Candidates(Ok(cs))),
    };
    assert(turn_of(b, env, wait, EventV::Returned(OutcomeV::Candidates(Ok(cs)))) == (
        b,
        TurnV::Say {
            task: None,
            response: BackendResponseV::RetentionPreview {
                result: Ok(RetentionPreviewResultV { candidates: cs }),
            },
        },
    )) by {
        reveal(turn_of);
    }
    lemma_turn(done, env, None, none, wait);
    lemma_goes(done, env, None, 2);
    let m = begun(b, cmd);
    let replies = one_page(today, page, emails, 0);
    assert(talked(m, env, replies, 3).0.state == b);
    assert(talked(m, env, replies, 3).1 == OutputV::Tell(
        BackendResponseV::RetentionPreview {
            result: Ok(RetentionPreviewResultV { candidates: cs }),
        },
    ));
    let some = exists|j: int|
        0 <= j < emails.len() && (#[trigger] emails[j]).id == id && outlived(
            emails[j],
            today as int,
            p.days as int,
        );
    assert(names_message(cs, id) <==> some);
    assert(previewed(talked(m, env, replies, 3).1) == Some(cs));
}

proof fn lemma_retention_op(cs: Seq<RetentionCandidateV>, op_id: u64, k: int, i: int)
    requires
        0 <= i < k <= cs.len(),
    ensures
        retention_mutations_upto(cs, op_id, k).len() == k,
        retention_mutations_upto(cs, op_id, k)[i] == (QueuedMutationV::DestroyEmail {
            op_id: id_after(op_id, i),
            id: cs[i].id,
        }),
    decreases k,
{
    if i < k - 1 {
        lemma_retention_op(cs, op_id, k - 1, i);
    } else if k > 1 {
        lemma_retention_op(cs, op_id, k - 1, 0);
    } else {
        assert(retention_mutations_upto(cs, op_id, 0).len() == 0);
    }
}

/// The work while it destroys what is let go.
spec fn destroying(
    b: BackendStateV,
    cs: Seq<RetentionCandidateV>,
    k: int,
) -> BackendV {
    let ops = retention_mutations_upto(cs, b.next_op_id, cs.len() as int);
    BackendV {
        state: BackendStateV { next_op_id: id_after(b.next_op_id, cs.len() as int), ..b },
        stack: Seq::<TaskV>::empty().push(
            TaskV::Command(
                CommandTaskV::Expiring {
                    ops,
                    next: (k + 1) as usize,
                    deleted: k as usize,
                    failed: Seq::empty(),
                },
            ),
        ).push(TaskV::Mutate(MutateTaskV::Sent { op: ops[k], seq: None })).push(
            TaskV::Remote(RemoteTaskV::Sent),
        ),
        returned: None,
    }
}

/// From a turn that starts the next change on, the request that destroys goes out.
proof fn lemma_destroy_next(
    b: BackendStateV,
    env: BackendEnvV,
    cs: Seq<RetentionCandidateV>,
    k: int,
)
    requires
        b.cache is None,
        0 <= k < cs.len() < usize::MAX,
    ensures
        ({
            let ops = retention_mutations_upto(cs, b.next_op_id, cs.len() as int);
            let c = BackendStateV { next_op_id: id_after(b.next_op_id, cs.len() as int), ..b };
            let wait = TaskV::Command(
                CommandTaskV::Expiring {
                    ops,
                    next: (k + 1) as usize,
                    deleted: k as usize,
                    failed: Seq::empty(),
                },
            );
            let m = BackendV {
                state: c,
                stack: Seq::<TaskV>::empty().push(wait).push(
                    TaskV::Mutate(MutateTaskV::Start { op: ops[k] }),
                ),
                returned: None,
            };
            goes_on(m, env, None, 1) == (
                destroying(b, cs, k),
                OutputV::Ask(RequestV::DestroyEmails { ids: seq![cs[k].id] }),
            )
        }),
{
    let none = Seq::<TaskV>::empty();
    let ops = retention_mutations_upto(cs, b.next_op_id, cs.len() as int);
    let c = BackendStateV { next_op_id: id_after(b.next_op_id, cs.len() as int), ..b };
    let op = ops[k];
    lemma_retention_op(cs, b.next_op_id, cs.len() as int, k);
    let wait = TaskV::Command(
        CommandTaskV::Expiring {
            ops,
            next: (k + 1) as usize,
            deleted: k as usize,
            failed: Seq::empty(),
        },
    );
    let start = TaskV::Mutate(MutateTaskV::Start { op });
    let sent = TaskV::Mutate(MutateTaskV::Sent { op, seq: None });
    let begin = TaskV::Remote(RemoteTaskV::Start { op });
    let m = BackendV { state: c, stack: none.push(wait).push(start), returned: None };
    assert(turn_of(c, env, start, EventV::Go) == (c, TurnV::Spawn { task: sent, child: begin }))
        by {
        reveal(turn_of);
    }
    assert(turn_of(c, env, begin, EventV::Go) == (
        c,
        TurnV::Call {
            task: TaskV::Remote(RemoteTaskV::Sent),
            request: RequestV::DestroyEmails { ids: seq![cs[k].id] },
        },
    )) by {
        reveal(turn_of);
    }
    lemma_turn(m, env, None, none.push(wait), start);
    let m1 = one_step(m, env, None).0;
    lemma_turn(m1, env, None, none.push(wait).push(sent), begin);
    lemma_goes(m, env, None, 1);
    lemma_goes(m1, env, None, 0);
}

proof fn lemma_destroyed_upto(
    b: BackendStateV,
    env: BackendEnvV,
    p: RetentionPolicyConfigV,
    today: i64,
    page: EmailQueryResultV,
    emails: Seq<EmailV>,
    k: int,
)
    requires
        !b.offline,
        b.cache is None,
        resolved_mailbox(p.folder, b.mailboxes) is Some,
        whole_page(page),
        0 <= k < let_go(b, p, today, emails).len() < usize::MAX,
    ensures
        ({
            let cs = let_go(b, p, today, emails);
            let m = begun(b, BackendCommandV::ExecuteRetentionExpiry { policies: seq![p] });
            let replies = one_page(today, page, emails, cs.len());
            talked(m, env, replies, 3 + k) == (
                destroying(b, cs, k),
                OutputV::Ask(RequestV::DestroyEmails { ids: seq![cs[k].id] }),
            )
        }),
    decreases k,
{
    let cmd = BackendCommandV::ExecuteRetentionExpiry { policies: seq![p] };
    let cs = let_go(b, p, today, emails);
    let ops = retention_mutations_upto(cs, b.next_op_id, cs.len() as int);
    let c = BackendStateV { next_op_id: id_after(b.next_op_id, cs.len() as int), ..b };
    let m = begun(b, cmd);
    let replies = one_page(today, page, emails, cs.len());
    let none = Seq::<TaskV>::empty();
    let wait = TaskV::Command(
        CommandTaskV::Expiring {
            ops,
            next: (k + 1) as usize,
            deleted: k as usize,
            failed: Seq::empty(),
        },
    );
    lemma_retention_op(cs, b.next_op_id, cs.len() as int, k);
    lemma_destroy_next(b, env, cs, k);
    let spawned = TurnV::Spawn {
        task: wait,
        child: TaskV::Mutate(MutateTaskV::Start { op: ops[k] }),
    };
    if k == 0 {
        let top = TaskV::Command(CommandTaskV::Expire);
        lemma_found(b, env, cmd, CommandTaskV::Expire, p, today, page, emails, cs.len());
        let done = BackendV {
            state: b,
            stack: none.push(top),
            returned: Some(OutcomeV::Candidates(Ok(cs))),
        };
        assert(turn_of(b, env, top, EventV::Returned(OutcomeV::Candidates(Ok(cs)))) == (c, spawned))
            by {
            reveal(turn_of);
        }
        lemma_turn(done, env, None, none, top);
        lemma_goes(done, env, None, 2);
    } else {
        lemma_destroyed_upto(b, env, p, today, page, emails, k - 1);
        lemma_confirmed(b, env, cs, k - 1);
        let before = destroying(b, cs, k - 1);
        let reply = replies[2 + k];
        assert(reply == ReplyV::Done(Ok(())));
        let prior = TaskV::Command(
            CommandTaskV::Expiring {
                ops,
                next: k as usize,
                deleted: (k - 1) as usize,
                failed: Seq::empty(),
            },
        );
        assert(turn_of(c, env, prior, EventV::Returned(OutcomeV::Unit(Ok(())))) == (c, spawned)) by {
            reveal(turn_of);
        }
        let back = BackendV {
            state: c,
            stack: none.push(prior),
            returned: Some(OutcomeV::Unit(Ok(()))),
        };
        lemma_turn(back, env, None, none, prior);
        lemma_goes(back, env, None, 2);
    }
}

/// A confirmation comes back to the task that counts.
proof fn lemma_confirmed(
    b: BackendStateV,
    env: BackendEnvV,
    cs: Seq<RetentionCandidateV>,
    k: int,
)
    requires
        b.cache is None,
        0 <= k < cs.len() < usize::MAX,
    ensures
        ({
            let ops = retention_mutations_upto(cs, b.next_op_id, cs.len() as int);
            let back = BackendV {
                state: BackendStateV { next_op_id: id_after(b.next_op_id, cs.len() as int), ..b },
                stack: Seq::<TaskV>::empty().push(
                    TaskV::Command(
                        CommandTaskV::Expiring {
                            ops,
                            next: (k + 1) as usize,
                            deleted: k as usize,
                            failed: Seq::empty(),
                        },
                    ),
                ),
                returned: Some(OutcomeV::Unit(Ok(()))),
            };
            goes_on(destroying(b, cs, k), env, Some(ReplyV::Done(Ok(()))), 4) == goes_on(
                back,
                env,
                None,
                2,
            )
        }),
{
    let none = Seq::<TaskV>::empty();
    let ops = retention_mutations_upto(cs, b.next_op_id, cs.len() as int);
    let c = BackendStateV { next_op_id: id_after(b.next_op_id, cs.len() as int), ..b };
    let wait = TaskV::Command(
        CommandTaskV::Expiring {
            ops,
            next: (k + 1) as usize,
            deleted: k as usize,
            failed: Seq::empty(),
        },
    );
    let sent = TaskV::Mutate(MutateTaskV::Sent { op: ops[k], seq: None });
    let remote = TaskV::Remote(RemoteTaskV::Sent);
    let reply = ReplyV::Done(Ok(()));
    let ok = OutcomeV::Unit(Ok(()));
    assert(turn_of(c, env, remote, EventV::Reply(reply)) == (c, TurnV::Return(ok))) by {
        reveal(turn_of);
    }
    assert(turn_of(c, env, sent, EventV::Returned(ok)) == (c, TurnV::Return(ok))) by {
        reveal(turn_of);
    }
    let m = destroying(b, cs, k);
    lemma_turn(m, env, Some(reply), none.push(wait).push(sent), remote);
    let m1 = one_step(m, env, Some(reply)).0;
    lemma_turn(m1, env, None, none.push(wait), sent);
    lemma_goes(m, env, Some(reply), 4);
    lemma_goes(m1, env, None, 3);
}

/// Carrying a policy out destroys, one by one and in order, exactly the messages that the
/// preview of the same policy lists on the same day, and then tells how many they were.
#[verifier::spinoff_prover]
#[verifier::rlimit(40)]
pub proof fn law_expiry_destroys_what_the_preview_lists(
    b: BackendStateV,
    env: BackendEnvV,
    p: RetentionPolicyConfigV,
    today: i64,
    page: EmailQueryResultV,
    emails: Seq<EmailV>,
    k: int,
)
    requires
        !b.offline,
        b.cache is None,
        resolved_mailbox(p.folder, b.mailboxes) is Some,
        whole_page(page),
        emails.len() < usize::MAX,
    ensures
        ({
            let policies = seq![p];
            let preview = begun(b, BackendCommandV::PreviewRetentionExpiry { policies });
            let m = begun(b, BackendCommandV::ExecuteRetentionExpiry { policies });
            match previewed(talked(preview, env, one_page(today, page, emails, 0), 3).1) {
                Some(cs) => {
                    let replies = one_page(today, page, emails, cs.len());
                    &&& cs.len() <= emails.len()
                    &&& 0 <= k < cs.len() ==> talked(m, env, replies, 3 + k).1 == OutputV::Ask(
                        RequestV::DestroyEmails { ids: seq![cs[k].id] },
                    )
                    &&& talked(m, env, replies, (3 + cs.len()) as int).1 == OutputV::Tell(
                        BackendResponseV::RetentionExecuted {
                            result: Ok(
                                RetentionExecutionResultV {
                                    deleted: cs.len() as usize,
                                    failed_batches: Seq::empty(),
                                },
                            ),
                        },
                    )
                },
                None => false,
            }
        }),
{
    let cmd = BackendCommandV::ExecuteRetentionExpiry { policies: seq![p] };
    let cs = let_go(b, p, today, emails);
    let ops = retention_mutations_upto(cs, b.next_op_id, cs.len() as int);
    let c = BackendStateV { next_op_id: id_after(b.next_op_id, cs.len() as int), ..b };
    let none = Seq::<TaskV>::empty();
    let x = taken_up(b, p, today);
    lemma_look_length(x, emails, emails.len() as int);
    law_candidates_in_order(looked_upto(x, emails, emails.len() as int).candidates);
    lemma_sorted_length(looked_upto(x, emails, emails.len() as int).candidates);
    law_preview_lists_what_has_outlived_the_policy(b, env, p, today, page, emails, Seq::empty());
    lemma_preview_result(b, env, p, today, page, emails);
    let m = begun(b, cmd);
    let n = cs.len() as int;
    let replies = one_page(today, page, emails, cs.len());
    if 0 <= k < n {
        lemma_destroyed_upto(b, env, p, today, page, emails, k);
    }
    let response = BackendResponseV::RetentionExecuted {
        result: Ok(
            RetentionExecutionResultV {
                deleted: cs.len() as usize,
                failed_batches: Seq::empty(),
            },
        ),
    };
    if n == 0 {
        let top = TaskV::Command(CommandTaskV::Expire);
        lemma_found(b, env, cmd, CommandTaskV::Expire, p, today, page, emails, cs.len());
        let done = BackendV {
            state: b,
            stack: none.push(top),
            returned: Some(OutcomeV::Candidates(Ok(cs))),
        };
        assert(turn_of(b, env, top, EventV::Returned(OutcomeV::Candidates(Ok(cs)))) == (
            c,
            TurnV::Say { task: None, response },
        )) by {
            reveal(turn_of);
        }
        lemma_turn(done, env, None, none, top);
        lemma_goes(done, env, None, 2);
    } else {
        lemma_retention_op(cs, b.next_op_id, n, 0);
        lemma_destroyed_upto(b, env, p, today, page, emails, n - 1);
        lemma_confirmed(b, env, cs, n - 1);
        let last = TaskV::Command(
            CommandTaskV::Expiring {
                ops,
                next: n as usize,
                deleted: (n - 1) as usize,
                failed: Seq::empty(),
            },
        );
        assert(turn_of(c, env, last, EventV::Returned(OutcomeV::Unit(Ok(())))) == (
            c,
            TurnV::Say { task: None, response },
        )) by {
            reveal(turn_of);
        }
        let back = BackendV {
            state: c,
            stack: none.push(last),
            returned: Some(OutcomeV::Unit(Ok(()))),
        };
        lemma_turn(back, env, None, none, last);
        lemma_goes(back, env, None, 2);
        assert(replies[2 + n] == ReplyV::Done(Ok(())));
        assert(talked(m, env, replies, 3 + n) == goes_on(
            talked(m, env, replies, 2 + n).0,
            env,
            Some(replies[2 + n]),
            4,
        ));
    }
}

proof fn lemma_preview_result(
    b: BackendStateV,
    env: BackendEnvV,
    p: RetentionPolicyConfigV,
    today: i64,
    page: EmailQueryResultV,
    emails: Seq<EmailV>,
)
    requires
        !b.offline,
        resolved_mailbox(p.folder, b.mailboxes) is Some,
        whole_page(page),
    ensures
        talked(
            begun(b, BackendCommandV::PreviewRetentionExpiry { policies: seq![p] }),
            env,
            one_page(today, page, emails, 0),
            3,
        ).1 == OutputV::Tell(
            BackendResponseV::RetentionPreview {
                result: Ok(RetentionPreviewResultV { candidates: let_go(b, p, today, emails) }),
            },
        ),
{
    let cmd = BackendCommandV::PreviewRetentionExpiry { policies: seq![p] };
    let wait = TaskV::Command(CommandTaskV::ExpirePreview);
    let cs = let_go(b, p, today, emails);
    let none = Seq::<TaskV>::empty();
    lemma_found(b, env, cmd, CommandTaskV::ExpirePreview, p, today, page, emails, 0);
    let done = BackendV {
        state: b,
        stack: none.push(wait),
        returned: Some(OutcomeV::Candidates(Ok(cs))),
    };
    assert(turn_of(b, env, wait, EventV::Returned(OutcomeV::Candidates(Ok(cs)))) == (
        b,
        TurnV::Say {
            task: None,
            response: BackendResponseV::RetentionPreview {
                result: Ok(RetentionPreviewResultV { candidates: cs }),
            },
        },
    )) by {
        reveal(turn_of);
    }
    lemma_turn(done, env, None, none, wait);
    lemma_goes(done, env, None, 2);
}

proof fn lemma_look_length(x: ExpiryV, emails: Seq<EmailV>, k: int)
    requires
        0 <= k <= emails.len(),
    ensures
        looked_upto(x, emails, k).candidates.len() <= x.candidates.len() + k,
    decreases k,
{
    if k > 0 {
        lemma_look_length(x, emails, k - 1);
    }
}

proof fn lemma_sorted_length(cs: Seq<RetentionCandidateV>)
    ensures
        sorted(cs, |a: RetentionCandidateV, c: RetentionCandidateV| candidate_le(a, c)).len()
            == cs.len(),
{
    law_candidates_in_order(cs);
    let s = sorted(cs, |a: RetentionCandidateV, c: RetentionCandidateV| candidate_le(a, c));
    s.to_multiset_ensures();
    cs.to_multiset_ensures();
}

// ---------------------------------------------------------------------------
// Pages and policies
// ---------------------------------------------------------------------------

/// A folder is looked at page by page: the next page begins where the last one ended, and
/// the policy and its folder stay the same, until the last page has come.
pub proof fn law_folder_is_looked_at_to_its_end(
    b: BackendStateV,
    env: BackendEnvV,
    x: ExpiryV,
    page: EmailQueryResultV,
    emails: Seq<EmailV>,
    total: u32,
)
    requires
        page.total == Some(total),
        0 < page.ids.len() <= u32::MAX,
        page.position + page.ids.len() < total,
    ensures
        ({
            let t = TaskV::Expire(ExpireTaskV::Emails { expiry: x, page });
            let y = looked_upto(x, emails, emails.len() as int);
            turn_of(b, env, t, EventV::Returned(OutcomeV::Emails(Ok(emails)))) == (
                b,
                TurnV::Call {
                    task: TaskV::Expire(ExpireTaskV::Page { expiry: y }),
                    request: RequestV::QueryUncollapsed {
                        mailbox_id: x.mailbox_id,
                        limit: 500,
                        position: (page.position + page.ids.len()) as u32,
                    },
                },
            ) && y.days == x.days && y.today == x.today && y.mailbox_id == x.mailbox_id
        }),
{
    reveal(turn_of);
    lemma_kept_by_look(x, emails, emails.len() as int);
}

/// After the last page of a folder the next policy is taken up, with its own folder and
/// days and what was found so far; one whose folder does not exist is passed over, and
/// after the last policy what was found is listed.
pub proof fn law_policies_take_turns(b: BackendStateV, env: BackendEnvV, x: ExpiryV)
    requires
        x.next <= x.policies.len() <= usize::MAX,
    ensures
        ({
            let t = TaskV::Expire(ExpireTaskV::Page { expiry: x });
            let none = EmailQueryResultV { ids: Seq::empty(), total: None, position: 0 };
            let (_, turn) = turn_of(b, env, t, EventV::Reply(ReplyV::Page(Ok(none))));
            let n = x.next as int;
            let p = x.policies[n];
            let folder = resolved_mailbox(p.folder, b.mailboxes);
            &&& n < x.policies.len() && folder is Some ==> (turn matches TurnV::Call {
                task: TaskV::Expire(ExpireTaskV::Page { expiry: y }),
                request: RequestV::QueryUncollapsed { mailbox_id, limit, position },
            } && mailbox_id == folder->0 && limit == 500 && position == 0 && y.days == p.days
                && y.policy_name == p.name && y.mailbox_id == folder->0 && y.next == n + 1
                && y.seen == x.seen && y.candidates == x.candidates && y.today == x.today)
            &&& n + 1 < x.policies.len() && folder is None && resolved_mailbox(
                x.policies[n + 1].folder,
                b.mailboxes,
            ) is Some ==> (turn matches TurnV::Call {
                task: TaskV::Expire(ExpireTaskV::Page { expiry: y }),
                ..
            } && y.days == x.policies[n + 1].days && y.policy_name == x.policies[n + 1].name)
            &&& n == x.policies.len() ==> (turn matches TurnV::Return(
                OutcomeV::Candidates(Ok(cs)),
            ) && cs.to_multiset() == x.candidates.to_multiset())
        }),
{
    reveal(turn_of);
    reveal_with_fuel(crate::backend::tasks::usable_policy, 3);
    law_candidates_in_order(x.candidates);
}

/// Policies that waited are carried out on the server as they were given: what they let
/// go is destroyed, one message after the other.
pub proof fn law_waiting_policies_are_carried_out(
    b: BackendStateV,
    env: BackendEnvV,
    policies: Seq<crate::backend::RetentionPolicySnapshotV>,
    cs: Seq<RetentionCandidateV>,
)
    requires
        0 < cs.len() <= usize::MAX,
    ensures
        ({
            let op = QueuedMutationV::ExecuteRetentionExpiry { policies };
            let start = TaskV::Remote(RemoteTaskV::Start { op });
            let (_, turn) = turn_of(b, env, start, EventV::Go);
            let found = EventV::Returned(OutcomeV::Candidates(Ok(cs)));
            let (_, next) = turn_of(b, env, TaskV::Remote(RemoteTaskV::Retention), found);
            &&& turn matches TurnV::Spawn {
                child: TaskV::Expire(ExpireTaskV::Start { policies: ps }),
                ..
            } && ps.len() == policies.len() && forall|i: int|
                0 <= i < ps.len() ==> (#[trigger] ps[i]).name == policies[i].name && ps[i].folder
                    == policies[i].folder && ps[i].days == policies[i].days
            &&& next matches TurnV::Spawn {
                child: TaskV::Mutate(MutateTaskV::Start { op: first }),
                ..
            } && first == (QueuedMutationV::DestroyEmail { op_id: b.next_op_id, id: cs[0].id })
        }),
{
    reveal(turn_of);
    lemma_retention_op(cs, b.next_op_id, cs.len() as int, 0);
    assert(id_after(b.next_op_id, 0) == b.next_op_id);
}

} // verus!
