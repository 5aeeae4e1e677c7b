//! Changes that wait to be sent: what they do to the cache at once, where they
//! come from, and when they are done with.

use vstd::prelude::*;

use crate::backend::{
    QueuedMutation, QueuedMutationV, RetentionCandidate, RetentionCandidateV,
    RetentionPolicySnapshot, RetentionPolicySnapshotV,
};
use crate::cache::{
    destroyed, mailbox_read, marked_seen, moved, set_flag, thread_emails, Cache, CacheV,
};
use crate::config::{RetentionPolicyConfig, RetentionPolicyConfigV};
use crate::data::{at, no_items, put};
use crate::jmap::types::{EmailV, Mailbox, MailboxV};
use crate::rules::{
    find_role, mailbox_with_role, resolve_mailbox_id, resolved_mailbox, Action, ActionV,
    RuleApplication, RuleApplicationV,
};
use crate::text::{ascii_lower, contains, has, to_ascii_lowercase};

verus! {

broadcast use vstd::seq_lib::group_seq_properties;

// ---------------------------------------------------------------------------
// Effect on the cache
// ---------------------------------------------------------------------------

/// The tables after a change that may not apply.
pub open spec fn or_same(changed: Option<CacheV>, c: CacheV) -> CacheV {
    match changed {
        Some(d) => d,
        None => c,
    }
}

/// The tables once the first `k` messages have moved.
pub open spec fn moved_upto(c: CacheV, emails: Seq<EmailV>, to: Seq<char>, k: int) -> CacheV
    decreases k,
{
    if k <= 0 {
        c
    } else {
        let before = moved_upto(c, emails, to, k - 1);
        or_same(moved(before, emails[k - 1].id, to), before)
    }
}

/// The tables once the first `k` messages are gone.
pub open spec fn destroyed_upto(c: CacheV, emails: Seq<EmailV>, k: int) -> CacheV
    decreases k,
{
    if k <= 0 {
        c
    } else {
        let before = destroyed_upto(c, emails, k - 1);
        or_same(destroyed(before, emails[k - 1].id), before)
    }
}

/// The tables once the first `k` messages of a list are read.
pub open spec fn seen_upto(c: CacheV, ids: Seq<Seq<char>>, k: int) -> CacheV
    decreases k,
{
    if k <= 0 {
        c
    } else {
        let before = seen_upto(c, ids, k - 1);
        or_same(marked_seen(before, ids[k - 1], true), before)
    }
}

/// The tables as if a change had been carried out.
pub open spec fn projected(c: CacheV, op: QueuedMutationV) -> CacheV {
    match op {
        QueuedMutationV::MarkRead { id, .. } => or_same(marked_seen(c, id, true), c),
        QueuedMutationV::MarkUnread { id, .. } => or_same(marked_seen(c, id, false), c),
        QueuedMutationV::SetFlagged { id, flagged, .. } => or_same(set_flag(c, id, flagged), c),
        QueuedMutationV::MoveEmail { id, to_mailbox_id, .. } => or_same(
            moved(c, id, to_mailbox_id),
            c,
        ),
        QueuedMutationV::MoveThread { thread_id, to_mailbox_id, .. } => {
            let emails = thread_emails(c, thread_id);
            moved_upto(c, emails, to_mailbox_id, emails.len() as int)
        },
        QueuedMutationV::DestroyEmail { id, .. } => or_same(destroyed(c, id), c),
        QueuedMutationV::DestroyThread { thread_id, .. } => {
            let emails = thread_emails(c, thread_id);
            destroyed_upto(c, emails, emails.len() as int)
        },
        QueuedMutationV::MarkThreadRead { email_ids, .. } => seen_upto(
            c,
            email_ids,
            email_ids.len() as int,
        ),
        QueuedMutationV::MarkMailboxRead { mailbox_id, .. } => mailbox_read(c, mailbox_id).0,
        QueuedMutationV::RunRulesForMailbox { .. } => c,
        QueuedMutationV::ExecuteRetentionExpiry { .. } => c,
    }
}

/// Shows a change in the cache as if it had been carried out.
pub fn apply_local_mutation(cache: &mut Cache, op: &QueuedMutation)
    ensures
        final(cache).deep_view() == projected(old(cache).deep_view(), op.deep_view()),
{
    let ghost start = cache.deep_view();
    match op {
        QueuedMutation::MarkRead { id, .. } => {
            let _ = cache.apply_mark_seen(id.as_str(), true);
        },
        QueuedMutation::MarkUnread { id, .. } => {
            let _ = cache.apply_mark_seen(id.as_str(), false);
        },
        QueuedMutation::SetFlagged { id, flagged, .. } => {
            let _ = cache.apply_set_flagged(id.as_str(), *flagged);
        },
        QueuedMutation::MoveEmail { id, to_mailbox_id, .. } => {
            let _ = cache.apply_move_email(id.as_str(), to_mailbox_id.as_str());
        },
        QueuedMutation::MoveThread { thread_id, to_mailbox_id, .. } => {
            let emails = cache.get_thread_emails(thread_id.as_str());
            let mut i: usize = 0;
            while i < emails.len()
                invariant
                    i <= emails@.len(),
                    cache.deep_view() == moved_upto(
                        start,
                        emails.deep_view(),
                        to_mailbox_id@,
                        i as int,
                    ),
                decreases emails@.len() - i,
            {
                let _ = cache.apply_move_email(
                    at(emails.as_slice(), i).id.as_str(),
                    to_mailbox_id.as_str(),
                );
                i = i + 1;
            }
        },
        QueuedMutation::DestroyEmail { id, .. } => {
            let _ = cache.apply_destroy_email(id.as_str());
        },
        QueuedMutation::DestroyThread { thread_id, .. } => {
            let emails = cache.get_thread_emails(thread_id.as_str());
            let mut i: usize = 0;
            while i < emails.len()
                invariant
                    i <= emails@.len(),
                    cache.deep_view() == destroyed_upto(start, emails.deep_view(), i as int),
                decreases emails@.len() - i,
            {
                let _ = cache.apply_destroy_email(at(emails.as_slice(), i).id.as_str());
                i = i + 1;
            }
        },
        QueuedMutation::MarkThreadRead { email_ids, .. } => {
            let mut i: usize = 0;
            while i < email_ids.len()
                invariant
                    i <= email_ids@.len(),
                    cache.deep_view() == seen_upto(start, email_ids.deep_view(), i as int),
                decreases email_ids@.len() - i,
            {
                let _ = cache.apply_mark_seen(at(email_ids.as_slice(), i).as_str(), true);
                i = i + 1;
            }
        },
        QueuedMutation::MarkMailboxRead { mailbox_id, .. } => {
            let _ = cache.apply_mark_mailbox_read(mailbox_id.as_str());
        },
        QueuedMutation::RunRulesForMailbox { .. } => {},
        QueuedMutation::ExecuteRetentionExpiry { .. } => {},
    }
}

proof fn lemma_moved_upto_queue(c: CacheV, emails: Seq<EmailV>, to: Seq<char>, k: int)
    ensures
        moved_upto(c, emails, to, k).op_queue == c.op_queue,
    decreases k,
{
    if k > 0 {
        lemma_moved_upto_queue(c, emails, to, k - 1);
    }
}

proof fn lemma_destroyed_upto_queue(c: CacheV, emails: Seq<EmailV>, k: int)
    ensures
        destroyed_upto(c, emails, k).op_queue == c.op_queue,
    decreases k,
{
    if k > 0 {
        lemma_destroyed_upto_queue(c, emails, k - 1);
    }
}

proof fn lemma_seen_upto_queue(c: CacheV, ids: Seq<Seq<char>>, k: int)
    ensures
        seen_upto(c, ids, k).op_queue == c.op_queue,
    decreases k,
{
    if k > 0 {
        lemma_seen_upto_queue(c, ids, k - 1);
    }
}

/// Showing a change in the cache leaves the waiting operations alone.
pub proof fn law_projection_keeps_queue(c: CacheV, op: QueuedMutationV)
    ensures
        projected(c, op).op_queue == c.op_queue,
{
    match op {
        QueuedMutationV::MoveThread { thread_id, to_mailbox_id, .. } => {
            let emails = thread_emails(c, thread_id);
            lemma_moved_upto_queue(c, emails, to_mailbox_id, emails.len() as int);
        },
        QueuedMutationV::DestroyThread { thread_id, .. } => {
            let emails = thread_emails(c, thread_id);
            lemma_destroyed_upto_queue(c, emails, emails.len() as int);
        },
        QueuedMutationV::MarkThreadRead { email_ids, .. } => {
            lemma_seen_upto_queue(c, email_ids, email_ids.len() as int);
        },
        _ => {},
    }
}

// ---------------------------------------------------------------------------
// Conflicts
// ---------------------------------------------------------------------------

/// Whether an error says that what was to be changed does not exist any more.
pub open spec fn missing_remote(msg: Seq<char>) -> bool {
    let l = ascii_lower(msg);
    ||| has(l, "not found"@)
    ||| has(l, "notfound"@)
    ||| has(l, "unknown"@)
    ||| has(l, "invalid email id"@)
}

/// Whether an error says that what was to be changed does not exist any more.
pub fn is_missing_remote_error(msg: &str) -> (r: bool)
    ensures
        r == missing_remote(msg@),
{
    let lower = to_ascii_lowercase(msg);
    contains(lower.as_str(), "not found") || contains(lower.as_str(), "notfound") || contains(
        lower.as_str(),
        "unknown",
    ) || contains(lower.as_str(), "invalid email id")
}

/// Whether a change takes messages away from where they are.
pub open spec fn takes_away(op: QueuedMutationV) -> bool {
    op is MoveEmail || op is MoveThread || op is DestroyEmail || op is DestroyThread
}

/// Whether a change is done with: it was carried out, or it was to take away what
/// is gone already.
pub open spec fn done_with(op: QueuedMutationV, result: Result<(), Seq<char>>) -> bool {
    match result {
        Ok(_) => true,
        Err(e) => takes_away(op) && missing_remote(e),
    }
}

/// Whether a change is done with once the server has answered.
pub fn is_done_with(op: &QueuedMutation, result: &Result<(), String>) -> (r: bool)
    ensures
        r == done_with(op.deep_view(), crate::data::result_view(*result)),
{
    match result {
        Ok(_) => true,
        Err(e) => {
            let away = match op {
                QueuedMutation::MoveEmail { .. } => true,
                QueuedMutation::MoveThread { .. } => true,
                QueuedMutation::DestroyEmail { .. } => true,
                QueuedMutation::DestroyThread { .. } => true,
                _ => false,
            };
            away && is_missing_remote_error(e.as_str())
        },
    }
}

// ---------------------------------------------------------------------------
// Changes that rules and retention policies ask for
// ---------------------------------------------------------------------------

/// The change that an action on a message asks for; nothing if the mailbox it
/// needs does not exist.
pub open spec fn mutation_for(
    a: ActionV,
    id: Seq<char>,
    mailboxes: Seq<MailboxV>,
    op_id: u64,
) -> Option<QueuedMutationV> {
    match a {
        ActionV::MarkRead => Some(QueuedMutationV::MarkRead { op_id, id }),
        ActionV::MarkUnread => Some(QueuedMutationV::MarkUnread { op_id, id }),
        ActionV::Flag => Some(QueuedMutationV::SetFlagged { op_id, id, flagged: true }),
        ActionV::Unflag => Some(QueuedMutationV::SetFlagged { op_id, id, flagged: false }),
        ActionV::Move { target } => match resolved_mailbox(target, mailboxes) {
            Some(to_mailbox_id) => Some(QueuedMutationV::MoveEmail { op_id, id, to_mailbox_id }),
            None => None,
        },
        ActionV::Delete => match mailbox_with_role(mailboxes, "trash"@) {
            Some(to_mailbox_id) => Some(QueuedMutationV::MoveEmail { op_id, id, to_mailbox_id }),
            None => None,
        },
    }
}

/// The number after another; it starts again at zero past the last one.
pub open spec fn next_id(n: u64) -> u64 {
    if n == u64::MAX {
        0
    } else {
        (n + 1) as u64
    }
}

/// The number `k` places after another.
pub open spec fn id_after(n: u64, k: int) -> u64
    decreases k,
{
    if k <= 0 {
        n
    } else {
        next_id(id_after(n, k - 1))
    }
}

/// The changes for the first `k` actions on a message; every action takes a
/// number, the first of them `op_id`.
pub open spec fn mutations_for_upto(
    actions: Seq<ActionV>,
    id: Seq<char>,
    mailboxes: Seq<MailboxV>,
    op_id: u64,
    k: int,
) -> Seq<QueuedMutationV>
    decreases k,
{
    if k <= 0 {
        Seq::empty()
    } else {
        let before = mutations_for_upto(actions, id, mailboxes, op_id, k - 1);
        match mutation_for(actions[k - 1], id, mailboxes, id_after(op_id, k - 1)) {
            Some(op) => before.push(op),
            None => before,
        }
    }
}

/// The changes for the first `k` applications, and the next number.
pub open spec fn rule_mutations_upto(
    apps: Seq<RuleApplicationV>,
    mailboxes: Seq<MailboxV>,
    op_id: u64,
    k: int,
) -> (Seq<QueuedMutationV>, u64)
    decreases k,
{
    if k <= 0 {
        (Seq::empty(), op_id)
    } else {
        let (before, n) = rule_mutations_upto(apps, mailboxes, op_id, k - 1);
        let app = apps[k - 1];
        (
            before + mutations_for_upto(
                app.actions,
                app.email_id,
                mailboxes,
                n,
                app.actions.len() as int,
            ),
            id_after(n, app.actions.len() as int),
        )
    }
}

/// Takes a number.
pub fn next_generated_op_id(counter: &mut u64) -> (r: u64)
    ensures
        r == *old(counter),
        *final(counter) == next_id(*old(counter)),
{
    let id: u64 = *counter;
    *counter = if id == u64::MAX {
        0
    } else {
        id + 1
    };
    id
}

fn mutation_of(action: &Action, id: &str, mailboxes: &[Mailbox], op_id: u64) -> (r: Option<
    QueuedMutation,
>)
    ensures
        r.deep_view() == mutation_for(action.deep_view(), id@, mailboxes.deep_view(), op_id),
{
    match action {
        Action::MarkRead => Some(QueuedMutation::MarkRead { op_id, id: id.to_owned() }),
        Action::MarkUnread => Some(QueuedMutation::MarkUnread { op_id, id: id.to_owned() }),
        Action::Flag => Some(
            QueuedMutation::SetFlagged { op_id, id: id.to_owned(), flagged: true },
        ),
        Action::Unflag => Some(
            QueuedMutation::SetFlagged { op_id, id: id.to_owned(), flagged: false },
        ),
        Action::Move { target } => match resolve_mailbox_id(target.as_str(), mailboxes) {
            Some(to_mailbox_id) => Some(
                QueuedMutation::MoveEmail { op_id, id: id.to_owned(), to_mailbox_id },
            ),
            None => None,
        },
        Action::Delete => match find_role(mailboxes, "trash") {
            Some(to_mailbox_id) => Some(
                QueuedMutation::MoveEmail { op_id, id: id.to_owned(), to_mailbox_id },
            ),
            None => None,
        },
    }
}

/// The changes that carry out rule applications, in order.
pub fn queued_mutations_for_rule_actions(
    applications: &[RuleApplication],
    mailboxes: &[Mailbox],
    counter: &mut u64,
) -> (r: Vec<QueuedMutation>)
    ensures
        (r.deep_view(), *final(counter)) == rule_mutations_upto(
            applications.deep_view(),
            mailboxes.deep_view(),
            *old(counter),
            applications@.len() as int,
        ),
{
    let ghost start = *counter;
    let ghost av = applications.deep_view();
    let ghost mv = mailboxes.deep_view();
    let mut out: Vec<QueuedMutation> = no_items();
    let mut i: usize = 0;
    while i < applications.len()
        invariant
            i <= applications@.len(),
            av == applications.deep_view(),
            mv == mailboxes.deep_view(),
            (out.deep_view(), *counter) == rule_mutations_upto(av, mv, start, i as int),
        decreases applications@.len() - i,
    {
        let app = at(applications, i);
        let ghost before = out.deep_view();
        let ghost n = *counter;
        let ghost acts = app.actions.deep_view();
        let mut j: usize = 0;
        assert(before + Seq::<QueuedMutationV>::empty() =~= before);
        while j < app.actions.len()
            invariant
                j <= app.actions@.len(),
                acts == app.actions.deep_view(),
                mv == mailboxes.deep_view(),
                *counter == id_after(n, j as int),
                out.deep_view() == before + mutations_for_upto(
                    acts,
                    app.email_id@,
                    mv,
                    n,
                    j as int,
                ),
            decreases app.actions@.len() - j,
        {
            let op_id = next_generated_op_id(counter);
            match mutation_of(
                at(app.actions.as_slice(), j),
                app.email_id.as_str(),
                mailboxes,
                op_id,
            ) {
                Some(op) => {
                    put(&mut out, op);
                    assert(out.deep_view() =~= before + mutations_for_upto(
                        acts,
                        app.email_id@,
                        mv,
                        n,
                        j + 1,
                    ));
                },
                None => {},
            }
            j = j + 1;
        }
        i = i + 1;
    }
    out
}

/// The changes that let the first `k` messages go.
pub open spec fn retention_mutations_upto(
    candidates: Seq<RetentionCandidateV>,
    op_id: u64,
    k: int,
) -> Seq<QueuedMutationV>
    decreases k,
{
    if k <= 0 {
        Seq::empty()
    } else {
        retention_mutations_upto(candidates, op_id, k - 1).push(
            QueuedMutationV::DestroyEmail {
                op_id: id_after(op_id, k - 1),
                id: candidates[k - 1].id,
            },
        )
    }
}

/// The changes that let messages go, in order.
pub fn queued_mutations_for_retention(
    candidates: &[RetentionCandidate],
    counter: &mut u64,
) -> (r: Vec<QueuedMutation>)
    ensures
        r.deep_view() == retention_mutations_upto(
            candidates.deep_view(),
            *old(counter),
            candidates@.len() as int,
        ),
        *final(counter) == id_after(*old(counter), candidates@.len() as int),
{
    let ghost start = *counter;
    let mut out: Vec<QueuedMutation> = no_items();
    let mut i: usize = 0;
    while i < candidates.len()
        invariant
            i <= candidates@.len(),
            *counter == id_after(start, i as int),
            out.deep_view() == retention_mutations_upto(
                candidates.deep_view(),
                start,
                i as int,
            ),
        decreases candidates@.len() - i,
    {
        let op_id = next_generated_op_id(counter);
        put(
            &mut out,
            QueuedMutation::DestroyEmail { op_id, id: at(candidates, i).id.clone() },
        );
        i = i + 1;
    }
    out
}

/// A policy as it is queued.
pub open spec fn snapshot(p: RetentionPolicyConfigV) -> RetentionPolicySnapshotV {
    RetentionPolicySnapshotV { name: p.name, folder: p.folder, days: p.days }
}

/// A queued policy as it is carried out.
pub open spec fn unsnapshot(p: RetentionPolicySnapshotV) -> RetentionPolicyConfigV {
    RetentionPolicyConfigV { name: p.name, folder: p.folder, days: p.days }
}

/// Policies as they are queued.
pub fn snapshot_policies(policies: &Vec<RetentionPolicyConfig>) -> (r: Vec<RetentionPolicySnapshot>)
    ensures
        r.deep_view() == policies.deep_view().map_values(
            |p: RetentionPolicyConfigV| snapshot(p),
        ),
{
    let ghost pv = policies.deep_view();
    let mut out: Vec<RetentionPolicySnapshot> = no_items();
    let mut i: usize = 0;
    while i < policies.len()
        invariant
            i <= policies@.len(),
            pv == policies.deep_view(),
            out.deep_view().len() == i,
            forall|j: int| 0 <= j < i ==> #[trigger] out.deep_view()[j] == snapshot(pv[j]),
        decreases policies@.len() - i,
    {
        let p = at(policies.as_slice(), i);
        put(
            &mut out,
            RetentionPolicySnapshot {
                name: p.name.clone(),
                folder: p.folder.clone(),
                days: p.days,
            },
        );
        i = i + 1;
    }
    assert(out.deep_view() =~= pv.map_values(|p: RetentionPolicyConfigV| snapshot(p)));
    out
}

/// Queued policies as they are carried out.
pub fn restore_policies(policies: &Vec<RetentionPolicySnapshot>) -> (r: Vec<RetentionPolicyConfig>)
    ensures
        r.deep_view() == policies.deep_view().map_values(
            |p: RetentionPolicySnapshotV| unsnapshot(p),
        ),
{
    let ghost pv = policies.deep_view();
    let mut out: Vec<RetentionPolicyConfig> = no_items();
    let mut i: usize = 0;
    while i < policies.len()
        invariant
            i <= policies@.len(),
            pv == policies.deep_view(),
            out.deep_view().len() == i,
            forall|j: int| 0 <= j < i ==> #[trigger] out.deep_view()[j] == unsnapshot(pv[j]),
        decreases policies@.len() - i,
    {
        let p = at(policies.as_slice(), i);
        put(
            &mut out,
            RetentionPolicyConfig { name: p.name.clone(), folder: p.folder.clone(), days: p.days },
        );
        i = i + 1;
    }
    assert(out.deep_view() =~= pv.map_values(|p: RetentionPolicySnapshotV| unsnapshot(p)));
    out
}

/// A queued policy is carried out as it was set.
pub proof fn law_policy_snapshot_round_trip(p: RetentionPolicyConfigV)
    ensures
        unsnapshot(snapshot(p)) == p,
{
}

} // verus!
