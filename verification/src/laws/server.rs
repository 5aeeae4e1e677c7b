//! Work with a server: what each command makes the program ask for, and what it tells
//! once the answer is there.

use vstd::prelude::*;

use crate::backend::offline::{mutation_response, offline_outcome, operation_of};
use crate::backend::queue::{done_with, projected};
use crate::backend::tasks::{
    command_next, command_taken, online_start, remote_next, remote_start, replay_next, stack_next,
    task_next, work_on, BackendEnvV, BackendStateV, BackendV, CommandTaskV, EventV, MutateTaskV,
    OutcomeV, OutputV, RemoteTaskV, ReplayTaskV, ReplyV, RequestV, TaskV, TurnV,
};
use crate::backend::{BackendCommandV, BackendResponseV, EmailMutationAction, QueuedMutationV};
use crate::cache::{mailbox_emails, next_seq, queued, unqueued_upto, CacheV};
use crate::data::{lookup, with_entry};
use crate::spam::head_and_body;
use crate::jmap::types::{EmailV, MailboxV};
use crate::text::{begins, has};

verus! {

broadcast use vstd::seq_lib::group_seq_properties;

/// What a task does when it is told something.
#[verifier::opaque]
pub open spec fn turn_of(b: BackendStateV, env: BackendEnvV, t: TaskV, ev: EventV) -> (
    BackendStateV,
    TurnV,
) {
    task_next(b, env, t, ev)
}

/// The work after one step, and what it asks or tells then.
#[verifier::opaque]
pub open spec fn one_step(m: BackendV, env: BackendEnvV, reply: Option<ReplyV>) -> (
    BackendV,
    OutputV,
) {
    stack_next(m, env, reply)
}

/// The work after a reply, once it asks for something, tells something or is idle.
pub open spec fn goes_on(m: BackendV, env: BackendEnvV, reply: Option<ReplyV>, fuel: nat) -> (
    BackendV,
    OutputV,
)
    decreases fuel,
{
    let (n, out) = one_step(m, env, reply);
    if out is Continue && fuel > 0 {
        goes_on(n, env, None, (fuel - 1) as nat)
    } else {
        (n, out)
    }
}

/// The work once the first `k` replies have come, and what it asks or tells then.
pub open spec fn talked(m: BackendV, env: BackendEnvV, replies: Seq<ReplyV>, k: int) -> (
    BackendV,
    OutputV,
)
    decreases k,
{
    if k <= 0 {
        goes_on(m, env, None, 4)
    } else {
        goes_on(talked(m, env, replies, k - 1).0, env, Some(replies[k - 1]), 4)
    }
}

/// The work that has just taken up a command.
pub open spec fn begun(b: BackendStateV, cmd: BackendCommandV) -> BackendV {
    BackendV {
        state: b,
        stack: seq![TaskV::Command(CommandTaskV::Start { cmd })],
        returned: None,
    }
}

/// Whether a command makes the program ask for one thing and then, with the reply, tell
/// one thing and be done, and leaves what is kept as it was.
pub open spec fn exchanged(
    b: BackendStateV,
    env: BackendEnvV,
    cmd: BackendCommandV,
    request: RequestV,
    reply: ReplyV,
    response: BackendResponseV,
) -> bool {
    let (n, asked) = talked(begun(b, cmd), env, seq![reply], 0);
    let (o, told) = talked(begun(b, cmd), env, seq![reply], 1);
    &&& asked == OutputV::Ask(request)
    &&& n.state == b
    &&& told == OutputV::Tell(response)
    &&& o.state == b
    &&& o.stack.len() == 0
}

/// The answer to a change of a message or a thread.
pub open spec fn changed(
    op_id: u64,
    id: Seq<char>,
    action: EmailMutationAction,
    result: Result<(), Seq<char>>,
) -> BackendResponseV {
    BackendResponseV::EmailMutation { op_id, id, action, result }
}

/// What a task is told when a reply has come, or what another task has returned.
pub open spec fn event_of(reply: Option<ReplyV>, returned: Option<OutcomeV>) -> EventV {
    match (reply, returned) {
        (Some(r), _) => EventV::Reply(r),
        (None, Some(o)) => EventV::Returned(o),
        (None, None) => EventV::Go,
    }
}

/// What a turn of the task on top makes of the work.
pub open spec fn turned(state: BackendStateV, rest: Seq<TaskV>, turn: TurnV) -> (
    BackendV,
    OutputV,
) {
    match turn {
        TurnV::Call { task, request } => (
            BackendV { state, stack: rest.push(task), returned: None },
            OutputV::Ask(request),
        ),
        TurnV::Spawn { task, child } => (
            BackendV { state, stack: rest.push(task).push(child), returned: None },
            OutputV::Continue,
        ),
        TurnV::Return(o) => (BackendV { state, stack: rest, returned: Some(o) }, OutputV::Continue),
        TurnV::Say { task: Some(t), response } => (
            BackendV { state, stack: rest.push(t), returned: None },
            OutputV::Tell(response),
        ),
        TurnV::Say { task: None, response } => (
            BackendV { state, stack: rest, returned: None },
            OutputV::Tell(response),
        ),
        TurnV::Finish => (BackendV { state, stack: rest, returned: None }, OutputV::Continue),
    }
}

/// A step is the turn of the task on top.
pub proof fn lemma_turn(m: BackendV, env: BackendEnvV, reply: Option<ReplyV>, rest: Seq<TaskV>, t: TaskV)
    requires
        m.stack == rest.push(t),
    ensures
        ({
            let (state, turn) = turn_of(m.state, env, t, event_of(reply, m.returned));
            one_step(m, env, reply) == turned(state, rest, turn)
        }),
{
    reveal(turn_of);
    reveal(one_step);
    assert(m.stack.drop_last() =~= rest);
    assert(m.stack.last() == t);
}

/// The work goes on until it asks or tells something.
pub proof fn lemma_goes(m: BackendV, env: BackendEnvV, reply: Option<ReplyV>, fuel: nat)
    ensures
        goes_on(m, env, reply, fuel) == (if one_step(m, env, reply).1 is Continue && fuel > 0 {
            goes_on(one_step(m, env, reply).0, env, None, (fuel - 1) as nat)
        } else {
            one_step(m, env, reply)
        }),
{
}

/// Whether a command asks for a change that one request carries out.
spec fn plain_change(cmd: BackendCommandV) -> bool {
    cmd is MarkEmailRead || cmd is MarkEmailUnread || cmd is SetEmailFlagged || cmd is MoveEmail
        || cmd is DestroyEmail || cmd is MarkThreadRead
}

/// The turns of the tasks that carry out a change.
proof fn lemma_change_turns(
    b: BackendStateV,
    env: BackendEnvV,
    cmd: BackendCommandV,
    op: QueuedMutationV,
    r: Result<(), Seq<char>>,
    seq: Option<u64>,
)
    requires
        !b.offline,
        plain_change(cmd),
        operation_of(cmd) == Some(op),
    ensures
        turn_of(b, env, TaskV::Command(CommandTaskV::Start { cmd }), EventV::Go) == (
            b,
            TurnV::Spawn {
                task: TaskV::Command(CommandTaskV::Mutation { cmd, updated: 0 }),
                child: TaskV::Mutate(MutateTaskV::Start { op }),
            },
        ),
        turn_of(b, env, TaskV::Remote(RemoteTaskV::Start { op }), EventV::Go) == (
            b,
            remote_start(op),
        ),
        turn_of(b, env, TaskV::Remote(RemoteTaskV::Sent), EventV::Reply(ReplyV::Done(r))) == (
            b,
            TurnV::Return(OutcomeV::Unit(r)),
        ),
        turn_of(
            b,
            env,
            TaskV::Command(CommandTaskV::Mutation { cmd, updated: 0 }),
            EventV::Returned(OutcomeV::Unit(r)),
        ) == (
            b,
            match mutation_response(cmd, r, 0) {
                Some(response) => TurnV::Say { task: None, response },
                None => TurnV::Finish,
            },
        ),
        b.cache is None ==> turn_of(
            b,
            env,
            TaskV::Mutate(MutateTaskV::Start { op }),
            EventV::Go,
        ) == (
            b,
            TurnV::Spawn {
                task: TaskV::Mutate(MutateTaskV::Sent { op, seq: None }),
                child: TaskV::Remote(RemoteTaskV::Start { op }),
            },
        ),
        b.cache is None ==> turn_of(
            b,
            env,
            TaskV::Mutate(MutateTaskV::Sent { op, seq }),
            EventV::Returned(OutcomeV::Unit(r)),
        ) == (b, TurnV::Return(OutcomeV::Unit(r))),
{
    reveal(turn_of);
}

proof fn lemma_sent_change(
    b: BackendStateV,
    env: BackendEnvV,
    cmd: BackendCommandV,
    op: QueuedMutationV,
    request: RequestV,
    r: Result<(), Seq<char>>,
    response: BackendResponseV,
)
    requires
        !b.offline,
        b.cache is None,
        plain_change(cmd),
        operation_of(cmd) == Some(op),
        remote_start(op) == (TurnV::Call { task: TaskV::Remote(RemoteTaskV::Sent), request }),
        mutation_response(cmd, r, 0) == Some(response),
    ensures
        exchanged(b, env, cmd, request, ReplyV::Done(r), response),
{
    lemma_change_turns(b, env, cmd, op, r, None);
    let none = Seq::<TaskV>::empty();
    let start = TaskV::Command(CommandTaskV::Start { cmd });
    let wait = TaskV::Command(CommandTaskV::Mutation { cmd, updated: 0 });
    let mutate = TaskV::Mutate(MutateTaskV::Start { op });
    let sent = TaskV::Mutate(MutateTaskV::Sent { op, seq: None });
    let begin = TaskV::Remote(RemoteTaskV::Start { op });
    let remote = TaskV::Remote(RemoteTaskV::Sent);
    let reply = ReplyV::Done(r);
    let m = begun(b, cmd);
    assert(m.stack =~= none.push(start));
    lemma_turn(m, env, None, none, start);
    let m1 = one_step(m, env, None).0;
    lemma_turn(m1, env, None, none.push(wait), mutate);
    let m2 = one_step(m1, env, None).0;
    lemma_turn(m2, env, None, none.push(wait).push(sent), begin);
    let m3 = one_step(m2, env, None).0;
    lemma_goes(m, env, None, 4);
    lemma_goes(m1, env, None, 3);
    lemma_goes(m2, env, None, 2);
    assert(goes_on(m, env, None, 4) == (m3, OutputV::Ask(request)));
    lemma_turn(m3, env, Some(reply), none.push(wait).push(sent), remote);
    let n1 = one_step(m3, env, Some(reply)).0;
    lemma_turn(n1, env, None, none.push(wait), sent);
    let n2 = one_step(n1, env, None).0;
    lemma_turn(n2, env, None, none, wait);
    let n3 = one_step(n2, env, None).0;
    lemma_goes(m3, env, Some(reply), 4);
    lemma_goes(n1, env, None, 3);
    lemma_goes(n2, env, None, 2);
    assert(goes_on(m3, env, Some(reply), 4) == (n3, OutputV::Tell(response)));
    let replies = seq![reply];
    assert(talked(m, env, replies, 0) == goes_on(m, env, None, 4));
    assert(talked(m, env, replies, 1) == goes_on(
        talked(m, env, replies, 0).0,
        env,
        Some(replies[0]),
        4,
    ));
}

/// Without a cache, a change of a message is sent to the server as it is, and is
/// answered with what the server says.
pub proof fn law_change_reaches_the_server(
    b: BackendStateV,
    env: BackendEnvV,
    op_id: u64,
    id: Seq<char>,
    to: Seq<char>,
    flagged: bool,
    ids: Seq<Seq<char>>,
    r: Result<(), Seq<char>>,
)
    requires
        !b.offline,
        b.cache is None,
    ensures
        exchanged(
            b,
            env,
            BackendCommandV::MarkEmailRead { op_id, id },
            RequestV::MarkRead { id },
            ReplyV::Done(r),
            changed(op_id, id, EmailMutationAction::MarkRead, r),
        ),
        exchanged(
            b,
            env,
            BackendCommandV::MarkEmailUnread { op_id, id },
            RequestV::MarkUnread { id },
            ReplyV::Done(r),
            changed(op_id, id, EmailMutationAction::MarkUnread, r),
        ),
        exchanged(
            b,
            env,
            BackendCommandV::SetEmailFlagged { op_id, id, flagged },
            RequestV::SetFlagged { id, flagged },
            ReplyV::Done(r),
            changed(op_id, id, EmailMutationAction::SetFlagged(flagged), r),
        ),
        exchanged(
            b,
            env,
            BackendCommandV::MoveEmail { op_id, id, to_mailbox_id: to },
            RequestV::MoveEmail { id, to },
            ReplyV::Done(r),
            changed(op_id, id, EmailMutationAction::Move, r),
        ),
        exchanged(
            b,
            env,
            BackendCommandV::DestroyEmail { op_id, id },
            RequestV::DestroyEmails { ids: seq![id] },
            ReplyV::Done(r),
            changed(op_id, id, EmailMutationAction::Destroy, r),
        ),
        ids.len() > 0 ==> exchanged(
            b,
            env,
            BackendCommandV::MarkThreadRead { thread_id: id, email_ids: ids },
            RequestV::MarkAllRead { ids },
            ReplyV::Done(r),
            BackendResponseV::ThreadMarkedRead { thread_id: id, result: r },
        ),
{
    lemma_sent_change(
        b,
        env,
        BackendCommandV::MarkEmailRead { op_id, id },
        QueuedMutationV::MarkRead { op_id, id },
        RequestV::MarkRead { id },
        r,
        changed(op_id, id, EmailMutationAction::MarkRead, r),
    );
    lemma_sent_change(
        b,
        env,
        BackendCommandV::MarkEmailUnread { op_id, id },
        QueuedMutationV::MarkUnread { op_id, id },
        RequestV::MarkUnread { id },
        r,
        changed(op_id, id, EmailMutationAction::MarkUnread, r),
    );
    lemma_sent_change(
        b,
        env,
        BackendCommandV::SetEmailFlagged { op_id, id, flagged },
        QueuedMutationV::SetFlagged { op_id, id, flagged },
        RequestV::SetFlagged { id, flagged },
        r,
        changed(op_id, id, EmailMutationAction::SetFlagged(flagged), r),
    );
    lemma_sent_change(
        b,
        env,
        BackendCommandV::MoveEmail { op_id, id, to_mailbox_id: to },
        QueuedMutationV::MoveEmail { op_id, id, to_mailbox_id: to },
        RequestV::MoveEmail { id, to },
        r,
        changed(op_id, id, EmailMutationAction::Move, r),
    );
    lemma_sent_change(
        b,
        env,
        BackendCommandV::DestroyEmail { op_id, id },
        QueuedMutationV::DestroyEmail { op_id, id },
        RequestV::DestroyEmails { ids: seq![id] },
        r,
        changed(op_id, id, EmailMutationAction::Destroy, r),
    );
    if ids.len() > 0 {
        lemma_sent_change(
            b,
            env,
            BackendCommandV::MarkThreadRead { thread_id: id, email_ids: ids },
            QueuedMutationV::MarkThreadRead { thread_id: id, email_ids: ids },
            RequestV::MarkAllRead { ids },
            r,
            BackendResponseV::ThreadMarkedRead { thread_id: id, result: r },
        );
    }
}

/// Whether the server's answer settles a change: it was carried out, or it was to take
/// away a message that the server says is not there.
pub open spec fn settles(cmd: BackendCommandV, r: Result<(), Seq<char>>) -> bool {
    match r {
        Ok(_) => true,
        Err(e) => (cmd is MoveEmail || cmd is DestroyEmail || cmd is MoveThread
            || cmd is DestroyThread) && {
            let l = crate::text::ascii_lower(e);
            has(l, "not found"@) || has(l, "notfound"@) || has(l, "unknown"@) || has(
                l,
                "invalid email id"@,
            )
        },
    }
}

/// Whether a command, with a cache, goes through these four exchanges: the change is put
/// into bytes, the bytes are stored under the next number of the queue, the change shows
/// in the cache and waits in the queue while it is sent, and then it is answered as done;
/// it leaves the queue if and only if the server's answer settles it.
pub open spec fn kept_and_sent(
    b: BackendStateV,
    env: BackendEnvV,
    cmd: BackendCommandV,
    op: QueuedMutationV,
    payload: Seq<u8>,
    request: RequestV,
    r: Result<(), Seq<char>>,
    response: BackendResponseV,
) -> bool {
    let c = b.cache->0;
    let seq = next_seq(c.op_queue);
    let shown = projected(CacheV { op_queue: queued(c.op_queue, payload), ..c }, op);
    let replies = seq![ReplyV::Payload(Ok(payload)), ReplyV::Done(Ok(())), ReplyV::Done(r)];
    let m = begun(b, cmd);
    &&& talked(m, env, replies, 0).1 == OutputV::Ask(RequestV::Encode { op })
    &&& talked(m, env, replies, 0).0.state == b
    &&& talked(m, env, replies, 1).1 == OutputV::Ask(RequestV::Store { seq, payload })
    &&& talked(m, env, replies, 1).0.state == b
    &&& talked(m, env, replies, 2).1 == OutputV::Ask(request)
    &&& talked(m, env, replies, 2).0.state == BackendStateV { cache: Some(shown), ..b }
    &&& talked(m, env, replies, 3).1 == OutputV::Tell(response)
    &&& talked(m, env, replies, 3).0.stack.len() == 0
    &&& talked(m, env, replies, 3).0.state == BackendStateV {
        cache: Some(
            if settles(cmd, r) {
                CacheV {
                    op_queue: unqueued_upto(shown.op_queue, seq, shown.op_queue.len() as int),
                    ..shown
                }
            } else {
                shown
            },
        ),
        ..b
    }
}

/// The turns of a change that is kept in the cache.
proof fn lemma_kept_turns(
    b: BackendStateV,
    d: BackendStateV,
    env: BackendEnvV,
    op: QueuedMutationV,
    payload: Seq<u8>,
    r: Result<(), Seq<char>>,
    seq: u64,
)
    requires
        b.cache is Some,
        d.cache is Some,
    ensures
        turn_of(b, env, TaskV::Mutate(MutateTaskV::Start { op }), EventV::Go) == (
            b,
            TurnV::Call {
                task: TaskV::Mutate(MutateTaskV::Encoding { op }),
                request: RequestV::Encode { op },
            },
        ),
        turn_of(
            b,
            env,
            TaskV::Mutate(MutateTaskV::Encoding { op }),
            EventV::Reply(ReplyV::Payload(Ok(payload))),
        ) == (
            b,
            TurnV::Call {
                task: TaskV::Mutate(MutateTaskV::Storing { op, payload }),
                request: RequestV::Store { seq: next_seq(b.cache->0.op_queue), payload },
            },
        ),
        turn_of(
            b,
            env,
            TaskV::Mutate(MutateTaskV::Storing { op, payload }),
            EventV::Reply(ReplyV::Done(Ok(()))),
        ) == (
            BackendStateV {
                cache: Some(
                    projected(
                        CacheV { op_queue: queued(b.cache->0.op_queue, payload), ..b.cache->0 },
                        op,
                    ),
                ),
                ..b
            },
            TurnV::Spawn {
                task: TaskV::Mutate(
                    MutateTaskV::Sent { op, seq: Some(next_seq(b.cache->0.op_queue)) },
                ),
                child: TaskV::Remote(RemoteTaskV::Start { op }),
            },
        ),
        turn_of(
            d,
            env,
            TaskV::Mutate(MutateTaskV::Sent { op, seq: Some(seq) }),
            EventV::Returned(OutcomeV::Unit(r)),
        ) == (
            BackendStateV {
                cache: Some(
                    if done_with(op, r) {
                        CacheV {
                            op_queue: unqueued_upto(
                                d.cache->0.op_queue,
                                seq,
                                d.cache->0.op_queue.len() as int,
                            ),
                            ..d.cache->0
                        }
                    } else {
                        d.cache->0
                    },
                ),
                ..d
            },
            TurnV::Return(OutcomeV::Unit(Ok(()))),
        ),
{
    reveal(turn_of);
}

proof fn lemma_kept_change(
    b: BackendStateV,
    env: BackendEnvV,
    cmd: BackendCommandV,
    op: QueuedMutationV,
    payload: Seq<u8>,
    request: RequestV,
    r: Result<(), Seq<char>>,
    response: BackendResponseV,
)
    requires
        !b.offline,
        b.cache is Some,
        plain_change(cmd),
        operation_of(cmd) == Some(op),
        done_with(op, r) == settles(cmd, r),
        remote_start(op) == (TurnV::Call { task: TaskV::Remote(RemoteTaskV::Sent), request }),
        mutation_response(cmd, Ok(()), 0) == Some(response),
    ensures
        kept_and_sent(b, env, cmd, op, payload, request, r, response),
{
    let c = b.cache->0;
    let seq = next_seq(c.op_queue);
    let d = BackendStateV {
        cache: Some(projected(CacheV { op_queue: queued(c.op_queue, payload), ..c }, op)),
        ..b
    };
    let none = Seq::<TaskV>::empty();
    let start = TaskV::Command(CommandTaskV::Start { cmd });
    let wait = TaskV::Command(CommandTaskV::Mutation { cmd, updated: 0 });
    let mutate = TaskV::Mutate(MutateTaskV::Start { op });
    let encoding = TaskV::Mutate(MutateTaskV::Encoding { op });
    let storing = TaskV::Mutate(MutateTaskV::Storing { op, payload });
    let sent = TaskV::Mutate(MutateTaskV::Sent { op, seq: Some(seq) });
    let begin = TaskV::Remote(RemoteTaskV::Start { op });
    let remote = TaskV::Remote(RemoteTaskV::Sent);
    let replies = seq![ReplyV::Payload(Ok(payload)), ReplyV::Done(Ok(())), ReplyV::Done(r)];
    lemma_change_turns(b, env, cmd, op, r, None);
    lemma_change_turns(d, env, cmd, op, r, None);
    lemma_kept_turns(b, d, env, op, payload, r, seq);
    let m = begun(b, cmd);
    assert(m.stack =~= none.push(start));
    lemma_turn(m, env, None, none, start);
    let m1 = one_step(m, env, None).0;
    lemma_turn(m1, env, None, none.push(wait), mutate);
    let m2 = one_step(m1, env, None).0;
    lemma_goes(m, env, None, 4);
    lemma_goes(m1, env, None, 3);
    assert(talked(m, env, replies, 0) == (m2, OutputV::Ask(RequestV::Encode { op })));
    lemma_turn(m2, env, Some(replies[0]), none.push(wait), encoding);
    let m3 = one_step(m2, env, Some(replies[0])).0;
    lemma_goes(m2, env, Some(replies[0]), 4);
    assert(talked(m, env, replies, 1) == (m3, OutputV::Ask(RequestV::Store { seq, payload })));
    lemma_turn(m3, env, Some(replies[1]), none.push(wait), storing);
    let m4 = one_step(m3, env, Some(replies[1])).0;
    lemma_turn(m4, env, None, none.push(wait).push(sent), begin);
    let m5 = one_step(m4, env, None).0;
    lemma_goes(m3, env, Some(replies[1]), 4);
    lemma_goes(m4, env, None, 3);
    assert(talked(m, env, replies, 2) == (m5, OutputV::Ask(request)));
    assert(m5.state == d);
    lemma_turn(m5, env, Some(replies[2]), none.push(wait).push(sent), remote);
    let n1 = one_step(m5, env, Some(replies[2])).0;
    lemma_turn(n1, env, None, none.push(wait), sent);
    let n2 = one_step(n1, env, None).0;
    lemma_change_turns(n2.state, env, cmd, op, Ok(()), None);
    lemma_turn(n2, env, None, none, wait);
    let n3 = one_step(n2, env, None).0;
    lemma_goes(m5, env, Some(replies[2]), 4);
    lemma_goes(n1, env, None, 3);
    lemma_goes(n2, env, None, 2);
    assert(talked(m, env, replies, 3) == (n3, OutputV::Tell(response)));
}

/// With a cache, a change of a message shows at once, waits until the server has taken
/// it, and is then forgotten; where the server has not, it keeps waiting.
pub proof fn law_change_is_kept_until_the_server_has_it(
    b: BackendStateV,
    env: BackendEnvV,
    payload: Seq<u8>,
    op_id: u64,
    id: Seq<char>,
    to: Seq<char>,
    flagged: bool,
    ids: Seq<Seq<char>>,
    r: Result<(), Seq<char>>,
)
    requires
        !b.offline,
        b.cache is Some,
    ensures
        kept_and_sent(
            b,
            env,
            BackendCommandV::MarkEmailRead { op_id, id },
            QueuedMutationV::MarkRead { op_id, id },
            payload,
            RequestV::MarkRead { id },
            r,
            changed(op_id, id, EmailMutationAction::MarkRead, Ok(())),
        ),
        kept_and_sent(
            b,
            env,
            BackendCommandV::MarkEmailUnread { op_id, id },
            QueuedMutationV::MarkUnread { op_id, id },
            payload,
            RequestV::MarkUnread { id },
            r,
            changed(op_id, id, EmailMutationAction::MarkUnread, Ok(())),
        ),
        kept_and_sent(
            b,
            env,
            BackendCommandV::SetEmailFlagged { op_id, id, flagged },
            QueuedMutationV::SetFlagged { op_id, id, flagged },
            payload,
            RequestV::SetFlagged { id, flagged },
            r,
            changed(op_id, id, EmailMutationAction::SetFlagged(flagged), Ok(())),
        ),
        kept_and_sent(
            b,
            env,
            BackendCommandV::MoveEmail { op_id, id, to_mailbox_id: to },
            QueuedMutationV::MoveEmail { op_id, id, to_mailbox_id: to },
            payload,
            RequestV::MoveEmail { id, to },
            r,
            changed(op_id, id, EmailMutationAction::Move, Ok(())),
        ),
        kept_and_sent(
            b,
            env,
            BackendCommandV::DestroyEmail { op_id, id },
            QueuedMutationV::DestroyEmail { op_id, id },
            payload,
            RequestV::DestroyEmails { ids: seq![id] },
            r,
            changed(op_id, id, EmailMutationAction::Destroy, Ok(())),
        ),
        ids.len() > 0 ==> kept_and_sent(
            b,
            env,
            BackendCommandV::MarkThreadRead { thread_id: id, email_ids: ids },
            QueuedMutationV::MarkThreadRead { thread_id: id, email_ids: ids },
            payload,
            RequestV::MarkAllRead { ids },
            r,
            BackendResponseV::ThreadMarkedRead { thread_id: id, result: Ok(()) },
        ),
{
    lemma_kept_change(
        b,
        env,
        BackendCommandV::MarkEmailRead { op_id, id },
        QueuedMutationV::MarkRead { op_id, id },
        payload,
        RequestV::MarkRead { id },
        r,
        changed(op_id, id, EmailMutationAction::MarkRead, Ok(())),
    );
    lemma_kept_change(
        b,
        env,
        BackendCommandV::MarkEmailUnread { op_id, id },
        QueuedMutationV::MarkUnread { op_id, id },
        payload,
        RequestV::MarkUnread { id },
        r,
        changed(op_id, id, EmailMutationAction::MarkUnread, Ok(())),
    );
    lemma_kept_change(
        b,
        env,
        BackendCommandV::SetEmailFlagged { op_id, id, flagged },
        QueuedMutationV::SetFlagged { op_id, id, flagged },
        payload,
        RequestV::SetFlagged { id, flagged },
        r,
        changed(op_id, id, EmailMutationAction::SetFlagged(flagged), Ok(())),
    );
    lemma_kept_change(
        b,
        env,
        BackendCommandV::MoveEmail { op_id, id, to_mailbox_id: to },
        QueuedMutationV::MoveEmail { op_id, id, to_mailbox_id: to },
        payload,
        RequestV::MoveEmail { id, to },
        r,
        changed(op_id, id, EmailMutationAction::Move, Ok(())),
    );
    lemma_kept_change(
        b,
        env,
        BackendCommandV::DestroyEmail { op_id, id },
        QueuedMutationV::DestroyEmail { op_id, id },
        payload,
        RequestV::DestroyEmails { ids: seq![id] },
        r,
        changed(op_id, id, EmailMutationAction::Destroy, Ok(())),
    );
    if ids.len() > 0 {
        lemma_kept_change(
            b,
            env,
            BackendCommandV::MarkThreadRead { thread_id: id, email_ids: ids },
            QueuedMutationV::MarkThreadRead { thread_id: id, email_ids: ids },
            payload,
            RequestV::MarkAllRead { ids },
            r,
            BackendResponseV::ThreadMarkedRead { thread_id: id, result: Ok(()) },
        );
    }
}

// ---------------------------------------------------------------------------
// Without a server
// ---------------------------------------------------------------------------

/// Without a server, the change that a command asks for is put into bytes and stored
/// before it shows, and is then answered.
pub proof fn law_offline_change_is_stored_first(
    b: BackendStateV,
    env: BackendEnvV,
    cmd: BackendCommandV,
    op: QueuedMutationV,
    payload: Seq<u8>,
)
    requires
        b.offline,
        b.cache is Some,
        operation_of(cmd) == Some(op),
    ensures
        ({
            let c = b.cache->0;
            let replies = seq![ReplyV::Payload(Ok(payload)), ReplyV::Done(Ok(()))];
            let m = begun(b, cmd);
            let end = talked(m, env, replies, 2);
            &&& talked(m, env, replies, 0).1 == OutputV::Ask(RequestV::Encode { op })
            &&& talked(m, env, replies, 1).1 == OutputV::Ask(
                RequestV::Store { seq: next_seq(c.op_queue), payload },
            )
            &&& talked(m, env, replies, 1).0.state == b
            &&& end.1 == OutputV::Tell(offline_outcome(cmd, b.cache, b.mailboxes, Ok(payload)).2->0)
            &&& end.0.stack.len() == 0
            &&& end.0.state == BackendStateV {
                cache: Some(projected(CacheV { op_queue: queued(c.op_queue, payload), ..c }, op)),
                ..b
            }
        }),
{
    let none = Seq::<TaskV>::empty();
    let start = TaskV::Command(CommandTaskV::Start { cmd });
    let offline = TaskV::Command(CommandTaskV::Offline { cmd });
    let storing = TaskV::Command(CommandTaskV::Storing { cmd, payload });
    let m = begun(b, cmd);
    let replies = seq![ReplyV::Payload(Ok(payload)), ReplyV::Done(Ok(()))];
    assert(m.stack =~= none.push(start));
    lemma_turn(m, env, None, none, start);
    assert(turn_of(b, env, start, EventV::Go) == (
        b,
        TurnV::Call { task: offline, request: RequestV::Encode { op } },
    )) by {
        reveal(turn_of);
    }
    lemma_goes(m, env, None, 4);
    let m1 = one_step(m, env, None).0;
    assert(talked(m, env, replies, 0) == one_step(m, env, None));
    lemma_turn(m1, env, Some(replies[0]), none, offline);
    assert(turn_of(b, env, offline, EventV::Reply(replies[0])) == (
        b,
        TurnV::Call {
            task: storing,
            request: RequestV::Store { seq: next_seq(b.cache->0.op_queue), payload },
        },
    )) by {
        reveal(turn_of);
    }
    lemma_goes(m1, env, Some(replies[0]), 4);
    let m2 = one_step(m1, env, Some(replies[0])).0;
    assert(talked(m, env, replies, 1) == one_step(m1, env, Some(replies[0])));
    lemma_turn(m2, env, Some(replies[1]), none, storing);
    let outcome = offline_outcome(cmd, b.cache, b.mailboxes, Ok(payload));
    assert(outcome.2 is Some);
    assert(turn_of(b, env, storing, EventV::Reply(replies[1])) == (
        BackendStateV { cache: outcome.0, mailboxes: outcome.1, ..b },
        TurnV::Say { task: None, response: outcome.2->0 },
    )) by {
        reveal(turn_of);
    }
    lemma_goes(m2, env, Some(replies[1]), 4);
    assert(talked(m, env, replies, 2) == one_step(m2, env, Some(replies[1])));
}

// ---------------------------------------------------------------------------
// Questions
// ---------------------------------------------------------------------------

/// Whether a command makes the program ask for one thing and then, with the reply, tell
/// one thing and be done, with what is kept then being `after`.
pub open spec fn exchanged_for(
    b: BackendStateV,
    env: BackendEnvV,
    cmd: BackendCommandV,
    request: RequestV,
    reply: ReplyV,
    response: BackendResponseV,
    after: BackendStateV,
) -> bool {
    let (n, asked) = talked(begun(b, cmd), env, seq![reply], 0);
    let (o, told) = talked(begun(b, cmd), env, seq![reply], 1);
    &&& asked == OutputV::Ask(request)
    &&& n.state == b
    &&& told == OutputV::Tell(response)
    &&& o.state == after
    &&& o.stack.len() == 0
}

proof fn lemma_question(
    b: BackendStateV,
    env: BackendEnvV,
    cmd: BackendCommandV,
    task: CommandTaskV,
    request: RequestV,
    reply: ReplyV,
    response: BackendResponseV,
    after: BackendStateV,
)
    requires
        turn_of(b, env, TaskV::Command(CommandTaskV::Start { cmd }), EventV::Go) == (
            b,
            TurnV::Call { task: TaskV::Command(task), request },
        ),
        turn_of(b, env, TaskV::Command(task), EventV::Reply(reply)) == (
            after,
            TurnV::Say { task: None, response },
        ),
    ensures
        exchanged_for(b, env, cmd, request, reply, response, after),
{
    let none = Seq::<TaskV>::empty();
    let start = TaskV::Command(CommandTaskV::Start { cmd });
    let m = begun(b, cmd);
    let replies = seq![reply];
    assert(m.stack =~= none.push(start));
    lemma_turn(m, env, None, none, start);
    lemma_goes(m, env, None, 4);
    let m1 = one_step(m, env, None).0;
    assert(talked(m, env, replies, 0) == one_step(m, env, None));
    lemma_turn(m1, env, Some(reply), none, TaskV::Command(task));
    lemma_goes(m1, env, Some(reply), 4);
    assert(talked(m, env, replies, 1) == one_step(m1, env, Some(reply)));
}

/// What is asked of the server is answered with what it says: a thread, a message for a
/// reply, the headers of a message, a saved attachment. A message that is not known is
/// fetched and then known; one that is known is shown without asking.
pub proof fn law_questions_are_answered(
    b: BackendStateV,
    env: BackendEnvV,
    id: Seq<char>,
    e: EmailV,
    emails: Result<Seq<EmailV>, Seq<char>>,
    raw: Seq<char>,
    saved: Result<Seq<char>, Seq<char>>,
    blob_id: Seq<char>,
    content_type: Seq<char>,
)
    requires
        !b.offline,
    ensures
        exchanged_for(
            b,
            env,
            BackendCommandV::QueryThreadEmails { thread_id: id },
            RequestV::QueryThreadEmails { thread_id: id },
            ReplyV::Emails(emails),
            BackendResponseV::ThreadEmails { thread_id: id, emails },
            b,
        ),
        exchanged_for(
            b,
            env,
            BackendCommandV::GetEmailForReply { id },
            RequestV::GetEmailForReply { id },
            ReplyV::Email(Ok(Some(e))),
            BackendResponseV::EmailForReply { id, result: Ok(e) },
            b,
        ),
        exchanged_for(
            b,
            env,
            BackendCommandV::GetEmailForReply { id },
            RequestV::GetEmailForReply { id },
            ReplyV::Email(Ok(None)),
            BackendResponseV::EmailForReply { id, result: Err("Email not found"@) },
            b,
        ),
        exchanged_for(
            b,
            env,
            BackendCommandV::GetEmailRawHeaders { id },
            RequestV::GetEmailRaw { id },
            ReplyV::Raw(Ok(Some(raw))),
            BackendResponseV::EmailRawHeaders { id, result: Ok(head_and_body(raw).0) },
            b,
        ),
        exchanged_for(
            b,
            env,
            BackendCommandV::DownloadAttachment { blob_id, name: id, content_type },
            RequestV::Download { blob_id, name: id, content_type },
            ReplyV::Saved(saved),
            BackendResponseV::AttachmentDownloaded { name: id, result: saved },
            b,
        ),
        b.cache is None ==> exchanged_for(
            b,
            env,
            BackendCommandV::GetEmail { id },
            RequestV::GetEmail { id },
            ReplyV::Email(Ok(Some(e))),
            BackendResponseV::EmailBody { id, result: Ok(e) },
            b,
        ),
        b.cache is Some && lookup(b.cache->0.emails, id) is None ==> exchanged_for(
            b,
            env,
            BackendCommandV::GetEmail { id },
            RequestV::GetEmail { id },
            ReplyV::Email(Ok(Some(e))),
            BackendResponseV::EmailBody { id, result: Ok(e) },
            BackendStateV {
                cache: Some(
                    CacheV { emails: with_entry(b.cache->0.emails, e.id, e), ..b.cache->0 },
                ),
                ..b
            },
        ),
        b.cache is Some && lookup(b.cache->0.emails, id) is Some ==> ({
            let (n, out) = talked(begun(b, BackendCommandV::GetEmail { id }), env, Seq::empty(), 0);
            &&& out == OutputV::Tell(
                BackendResponseV::EmailBody { id, result: Ok(lookup(b.cache->0.emails, id)->0) },
            )
            &&& n.state == b
        }),
{
    assert forall|cmd: BackendCommandV, ev: EventV|
        #![trigger turn_of(b, env, TaskV::Command(CommandTaskV::Start { cmd }), ev)]
        turn_of(b, env, TaskV::Command(CommandTaskV::Start { cmd }), ev) == online_start(b, cmd) by {
        reveal(turn_of);
    }
    assert forall|t: CommandTaskV, ev: EventV| #![trigger turn_of(b, env, TaskV::Command(t), ev)]
        turn_of(b, env, TaskV::Command(t), ev) == command_next(b, env, t, ev) by {
        reveal(turn_of);
    }
    lemma_question(
        b,
        env,
        BackendCommandV::QueryThreadEmails { thread_id: id },
        CommandTaskV::Thread { thread_id: id },
        RequestV::QueryThreadEmails { thread_id: id },
        ReplyV::Emails(emails),
        BackendResponseV::ThreadEmails { thread_id: id, emails },
        b,
    );
    lemma_question(
        b,
        env,
        BackendCommandV::GetEmailForReply { id },
        CommandTaskV::ForReply { id },
        RequestV::GetEmailForReply { id },
        ReplyV::Email(Ok(Some(e))),
        BackendResponseV::EmailForReply { id, result: Ok(e) },
        b,
    );
    lemma_question(
        b,
        env,
        BackendCommandV::GetEmailForReply { id },
        CommandTaskV::ForReply { id },
        RequestV::GetEmailForReply { id },
        ReplyV::Email(Ok(None)),
        BackendResponseV::EmailForReply { id, result: Err("Email not found"@) },
        b,
    );
    lemma_question(
        b,
        env,
        BackendCommandV::GetEmailRawHeaders { id },
        CommandTaskV::Raw { id },
        RequestV::GetEmailRaw { id },
        ReplyV::Raw(Ok(Some(raw))),
        BackendResponseV::EmailRawHeaders { id, result: Ok(head_and_body(raw).0) },
        b,
    );
    lemma_question(
        b,
        env,
        BackendCommandV::DownloadAttachment { blob_id, name: id, content_type },
        CommandTaskV::Download { name: id },
        RequestV::Download { blob_id, name: id, content_type },
        ReplyV::Saved(saved),
        BackendResponseV::AttachmentDownloaded { name: id, result: saved },
        b,
    );
    let get = BackendCommandV::GetEmail { id };
    if b.cache is None || lookup(b.cache->0.emails, id) is None {
        lemma_question(
            b,
            env,
            get,
            CommandTaskV::Email { id },
            RequestV::GetEmail { id },
            ReplyV::Email(Ok(Some(e))),
            BackendResponseV::EmailBody { id, result: Ok(e) },
            if b.cache is None {
                b
            } else {
                BackendStateV {
                    cache: Some(
                        CacheV { emails: with_entry(b.cache->0.emails, e.id, e), ..b.cache->0 },
                    ),
                    ..b
                }
            },
        );
    } else {
        let none = Seq::<TaskV>::empty();
        let start = TaskV::Command(CommandTaskV::Start { cmd: get });
        let m = begun(b, get);
        assert(m.stack =~= none.push(start));
        lemma_turn(m, env, None, none, start);
        lemma_goes(m, env, None, 4);
    }
}

/// The mailboxes that the server lists are told and kept, also in the cache. One that is
/// to be made or removed is asked for by its name or its id, and once that is done the
/// mailboxes are listed anew before it is told.
pub proof fn law_mailboxes_are_kept_as_listed(
    b: BackendStateV,
    env: BackendEnvV,
    origin: Seq<char>,
    ms: Seq<MailboxV>,
    name: Seq<char>,
    id: Seq<char>,
)
    requires
        !b.offline,
    ensures
        ({
            let kept = BackendStateV {
                mailboxes: ms,
                cache: match b.cache {
                    Some(c) => Some(CacheV { mailboxes: Some(ms), ..c }),
                    None => None,
                },
                ..b
            };
            let listed = ReplyV::Mailboxes(Ok(ms));
            let done = ReplyV::Done(Ok(()));
            let create = BackendCommandV::CreateMailbox { name };
            let delete = BackendCommandV::DeleteMailbox { id, name };
            let replies = seq![done, listed];
            &&& b.cache is None || b.cache->0.mailboxes is None ==> exchanged_for(
                b,
                env,
                BackendCommandV::FetchMailboxes { origin },
                RequestV::GetMailboxes,
                listed,
                BackendResponseV::Mailboxes(Ok(ms)),
                kept,
            )
            &&& talked(begun(b, create), env, replies, 0).1 == OutputV::Ask(
                RequestV::CreateMailbox { name },
            )
            &&& talked(begun(b, create), env, replies, 1).1 == OutputV::Ask(RequestV::GetMailboxes)
            &&& talked(begun(b, create), env, replies, 2).1 == OutputV::Tell(
                BackendResponseV::MailboxCreated { name, result: Ok(()) },
            )
            &&& talked(begun(b, create), env, replies, 2).0.state == kept
            &&& talked(begun(b, delete), env, replies, 0).1 == OutputV::Ask(
                RequestV::DeleteMailbox { id },
            )
            &&& talked(begun(b, delete), env, replies, 1).1 == OutputV::Ask(RequestV::GetMailboxes)
            &&& talked(begun(b, delete), env, replies, 2).1 == OutputV::Tell(
                BackendResponseV::MailboxDeleted { name, result: Ok(()) },
            )
            &&& talked(begun(b, delete), env, replies, 2).0.state == kept
        }),
{
    assert forall|cmd: BackendCommandV, ev: EventV|
        #![trigger turn_of(b, env, TaskV::Command(CommandTaskV::Start { cmd }), ev)]
        turn_of(b, env, TaskV::Command(CommandTaskV::Start { cmd }), ev) == online_start(b, cmd) by {
        reveal(turn_of);
    }
    assert forall|t: CommandTaskV, ev: EventV| #![trigger turn_of(b, env, TaskV::Command(t), ev)]
        turn_of(b, env, TaskV::Command(t), ev) == command_next(b, env, t, ev) by {
        reveal(turn_of);
    }
    let listed = ReplyV::Mailboxes(Ok(ms));
    let kept = BackendStateV {
        mailboxes: ms,
        cache: match b.cache {
            Some(c) => Some(CacheV { mailboxes: Some(ms), ..c }),
            None => None,
        },
        ..b
    };
    if b.cache is None || b.cache->0.mailboxes is None {
        lemma_question(
            b,
            env,
            BackendCommandV::FetchMailboxes { origin },
            CommandTaskV::Mailboxes,
            RequestV::GetMailboxes,
            listed,
            BackendResponseV::Mailboxes(Ok(ms)),
            kept,
        );
    }
    let none = Seq::<TaskV>::empty();
    let replies = seq![ReplyV::Done(Ok(())), listed];
    let create = BackendCommandV::CreateMailbox { name };
    let delete = BackendCommandV::DeleteMailbox { id, name };
    let m = begun(b, create);
    assert(m.stack =~= none.push(TaskV::Command(CommandTaskV::Start { cmd: create })));
    lemma_turn(m, env, None, none, TaskV::Command(CommandTaskV::Start { cmd: create }));
    lemma_goes(m, env, None, 4);
    let m1 = one_step(m, env, None).0;
    assert(talked(m, env, replies, 0) == one_step(m, env, None));
    lemma_turn(
        m1,
        env,
        Some(replies[0]),
        none,
        TaskV::Command(CommandTaskV::Change { cmd: create }),
    );
    lemma_goes(m1, env, Some(replies[0]), 4);
    let m2 = one_step(m1, env, Some(replies[0])).0;
    assert(talked(m, env, replies, 1) == one_step(m1, env, Some(replies[0])));
    lemma_turn(
        m2,
        env,
        Some(replies[1]),
        none,
        TaskV::Command(CommandTaskV::Changed { cmd: create }),
    );
    lemma_goes(m2, env, Some(replies[1]), 4);
    assert(talked(m, env, replies, 2) == one_step(m2, env, Some(replies[1])));
    let n = begun(b, delete);
    assert(n.stack =~= none.push(TaskV::Command(CommandTaskV::Start { cmd: delete })));
    lemma_turn(n, env, None, none, TaskV::Command(CommandTaskV::Start { cmd: delete }));
    lemma_goes(n, env, None, 4);
    let n1 = one_step(n, env, None).0;
    assert(talked(n, env, replies, 0) == one_step(n, env, None));
    lemma_turn(
        n1,
        env,
        Some(replies[0]),
        none,
        TaskV::Command(CommandTaskV::Change { cmd: delete }),
    );
    lemma_goes(n1, env, Some(replies[0]), 4);
    let n2 = one_step(n1, env, Some(replies[0])).0;
    assert(talked(n, env, replies, 1) == one_step(n1, env, Some(replies[0])));
    lemma_turn(
        n2,
        env,
        Some(replies[1]),
        none,
        TaskV::Command(CommandTaskV::Changed { cmd: delete }),
    );
    lemma_goes(n2, env, Some(replies[1]), 4);
    assert(talked(n, env, replies, 2) == one_step(n2, env, Some(replies[1])));
}

// ---------------------------------------------------------------------------
// Replaying the queue
// ---------------------------------------------------------------------------

/// The work that begins with the changes that wait.
pub open spec fn replaying(b: BackendStateV, queue: Seq<(u64, Seq<u8>)>, next: usize) -> BackendV {
    BackendV {
        state: b,
        stack: seq![TaskV::Replay(ReplayTaskV::Next { queue, next })],
        returned: None,
    }
}

/// The request that carries out a change of one message.
pub open spec fn carried_out_by(op: QueuedMutationV) -> Option<RequestV> {
    match op {
        QueuedMutationV::MarkRead { id, .. } => Some(RequestV::MarkRead { id }),
        QueuedMutationV::MarkUnread { id, .. } => Some(RequestV::MarkUnread { id }),
        QueuedMutationV::SetFlagged { id, flagged, .. } => Some(
            RequestV::SetFlagged { id, flagged },
        ),
        QueuedMutationV::MoveEmail { id, to_mailbox_id, .. } => Some(
            RequestV::MoveEmail { id, to: to_mailbox_id },
        ),
        QueuedMutationV::DestroyEmail { id, .. } => Some(RequestV::DestroyEmails { ids: seq![id] }),
        _ => None,
    }
}

/// On reconnecting, the change that waits first is read and sent. If the server takes it,
/// it leaves the queue and the next one is read; if the server refuses it, it stays with
/// all behind it, and nothing more is sent. One that cannot be read leaves the queue and
/// is not sent.
pub proof fn law_queue_is_replayed_in_order(
    b: BackendStateV,
    env: BackendEnvV,
    queue: Seq<(u64, Seq<u8>)>,
    next: usize,
    op: QueuedMutationV,
    e: Seq<char>,
)
    requires
        b.cache is Some,
        next + 1 < queue.len() <= usize::MAX,
        carried_out_by(op) is Some,
    ensures
        ({
            let c = b.cache->0;
            let m = replaying(b, queue, next);
            let without = BackendStateV {
                cache: Some(
                    CacheV {
                        op_queue: unqueued_upto(
                            c.op_queue,
                            queue[next as int].0,
                            c.op_queue.len() as int,
                        ),
                        ..c
                    },
                ),
                ..b
            };
            let taken = seq![ReplyV::Decoded(Some(op)), ReplyV::Done(Ok(()))];
            let refused = seq![ReplyV::Decoded(Some(op)), ReplyV::Done(Err(e))];
            let unread = seq![ReplyV::Decoded(None)];
            let read_next = OutputV::Ask(RequestV::Decode { payload: queue[next + 1].1 });
            &&& talked(m, env, taken, 0).1 == OutputV::Ask(
                RequestV::Decode { payload: queue[next as int].1 },
            )
            &&& talked(m, env, taken, 1).1 == OutputV::Ask(carried_out_by(op)->0)
            &&& talked(m, env, taken, 1).0.state == b
            &&& talked(m, env, taken, 2).1 == read_next
            &&& talked(m, env, taken, 2).0.state == without
            &&& talked(m, env, unread, 1).1 == read_next
            &&& talked(m, env, unread, 1).0.state == without
            &&& (op is MarkRead || op is MarkUnread || op is SetFlagged) ==> talked(
                m,
                env,
                refused,
                2,
            ).1 is Idle && talked(m, env, refused, 2).0.state == b
        }),
{
    let none = Seq::<TaskV>::empty();
    let m = replaying(b, queue, next);
    let first = TaskV::Replay(ReplayTaskV::Next { queue, next });
    let decoding = TaskV::Replay(ReplayTaskV::Decoding { queue, next });
    let sent = TaskV::Replay(ReplayTaskV::Sent { queue, next, op });
    let begin = TaskV::Remote(RemoteTaskV::Start { op });
    let remote = TaskV::Remote(RemoteTaskV::Sent);
    let taken = seq![ReplyV::Decoded(Some(op)), ReplyV::Done(Ok(()))];
    let refused = seq![ReplyV::Decoded(Some(op)), ReplyV::Done(Err(e))];
    let unread = seq![ReplyV::Decoded(None)];
    assert forall|t: ReplayTaskV, ev: EventV| #![trigger turn_of(b, env, TaskV::Replay(t), ev)]
        turn_of(b, env, TaskV::Replay(t), ev) == replay_next(b, t, ev) by {
        reveal(turn_of);
    }
    assert forall|t: RemoteTaskV, ev: EventV| #![trigger turn_of(b, env, TaskV::Remote(t), ev)]
        turn_of(b, env, TaskV::Remote(t), ev) == remote_next(b, t, ev) by {
        reveal(turn_of);
    }
    assert(m.stack =~= none.push(first));
    lemma_turn(m, env, None, none, first);
    lemma_goes(m, env, None, 4);
    let m1 = one_step(m, env, None).0;
    assert(talked(m, env, taken, 0) == one_step(m, env, None));
    assert(talked(m, env, refused, 0) == one_step(m, env, None));
    assert(talked(m, env, unread, 0) == one_step(m, env, None));
    lemma_turn(m1, env, Some(taken[0]), none, decoding);
    let m2 = one_step(m1, env, Some(taken[0])).0;
    lemma_turn(m2, env, None, none.push(sent), begin);
    lemma_goes(m1, env, Some(taken[0]), 4);
    lemma_goes(m2, env, None, 3);
    let m3 = one_step(m2, env, None).0;
    assert(talked(m, env, taken, 1) == one_step(m2, env, None));
    assert(talked(m, env, refused, 1) == one_step(m2, env, None));
    lemma_turn(m3, env, Some(taken[1]), none.push(sent), remote);
    let m4 = one_step(m3, env, Some(taken[1])).0;
    lemma_turn(m4, env, None, none, sent);
    lemma_goes(m3, env, Some(taken[1]), 4);
    lemma_goes(m4, env, None, 3);
    assert(talked(m, env, taken, 2) == one_step(m4, env, None));
    lemma_turn(m1, env, Some(unread[0]), none, decoding);
    lemma_goes(m1, env, Some(unread[0]), 4);
    assert(talked(m, env, unread, 1) == one_step(m1, env, Some(unread[0])));
    lemma_turn(m3, env, Some(refused[1]), none.push(sent), remote);
    let r4 = one_step(m3, env, Some(refused[1])).0;
    lemma_turn(r4, env, None, none, sent);
    lemma_goes(m3, env, Some(refused[1]), 4);
    lemma_goes(r4, env, None, 3);
    if op is MarkRead || op is MarkUnread || op is SetFlagged {
        let r5 = one_step(r4, env, None).0;
        assert(r5.stack =~= none);
        assert(one_step(r5, env, None) == (r5, OutputV::Idle)) by {
            reveal(one_step);
        }
        lemma_goes(r5, env, None, 2);
        assert(talked(m, env, refused, 2) == (r5, OutputV::Idle));
    }
}

// ---------------------------------------------------------------------------
// Threads
// ---------------------------------------------------------------------------

/// The replies that list a thread and then confirm every request.
pub open spec fn thread_replies(emails: Seq<EmailV>) -> Seq<ReplyV> {
    Seq::new(
        emails.len() + 1,
        |i: int|
            if i == 0 {
                ReplyV::Emails(Ok(emails))
            } else {
                ReplyV::Done(Ok(()))
            },
    )
}

/// Moving a thread asks for its messages and then moves each of them, in order, to the
/// one mailbox; destroying a thread destroys all of its messages at once.
pub proof fn law_thread_changes_reach_each_message(
    b: BackendStateV,
    env: BackendEnvV,
    op_id: u64,
    thread_id: Seq<char>,
    to: Seq<char>,
    emails: Seq<EmailV>,
    k: int,
)
    requires
        !b.offline,
        b.cache is None,
        0 <= k < emails.len() < usize::MAX,
    ensures
        ({
            let cmd = BackendCommandV::MoveThread { op_id, thread_id, to_mailbox_id: to };
            let destroy = BackendCommandV::DestroyThread { op_id, thread_id };
            let m = begun(b, cmd);
            let d = begun(b, destroy);
            let replies = thread_replies(emails);
            &&& talked(m, env, replies, 0).1 == OutputV::Ask(
                RequestV::QueryThreadEmails { thread_id },
            )
            &&& talked(m, env, replies, k + 1).1 == OutputV::Ask(
                RequestV::MoveEmail { id: emails[k].id, to },
            )
            &&& k == emails.len() - 1 ==> talked(
                m,
                env,
                replies.push(ReplyV::Done(Ok(()))),
                k + 2,
            ).1 == OutputV::Tell(changed(op_id, thread_id, EmailMutationAction::Move, Ok(())))
            &&& talked(d, env, replies, 0).1 == OutputV::Ask(
                RequestV::QueryThreadEmails { thread_id },
            )
            &&& talked(d, env, replies, 1).1 == OutputV::Ask(
                RequestV::DestroyEmails { ids: emails.map_values(|e: EmailV| e.id) },
            )
        }),
{
    let cmd = BackendCommandV::MoveThread { op_id, thread_id, to_mailbox_id: to };
    let op = QueuedMutationV::MoveThread { op_id, thread_id, to_mailbox_id: to };
    let destroy = BackendCommandV::DestroyThread { op_id, thread_id };
    let dop = QueuedMutationV::DestroyThread { op_id, thread_id };
    let replies = thread_replies(emails);
    lemma_thread_moving(b, env, op_id, thread_id, to, emails, k + 1);
    let none = Seq::<TaskV>::empty();
    let wait = TaskV::Command(CommandTaskV::Mutation { cmd, updated: 0 });
    let sent = TaskV::Mutate(MutateTaskV::Sent { op, seq: None });
    lemma_thread_start(b, env, cmd, op);
    lemma_thread_start(b, env, destroy, dop);
    assert forall|t: RemoteTaskV, ev: EventV| #![trigger turn_of(b, env, TaskV::Remote(t), ev)]
        turn_of(b, env, TaskV::Remote(t), ev) == remote_next(b, t, ev) by {
        reveal(turn_of);
    }
    let m = begun(b, cmd);
    assert(talked(m, env, replies, 0) == goes_on(m, env, None, 4));
    let d = begun(b, destroy);
    assert(talked(d, env, replies, 0) == goes_on(d, env, None, 4));
    let d1 = talked(d, env, replies, 0).0;
    let dwait = TaskV::Command(CommandTaskV::Mutation { cmd: destroy, updated: 0 });
    let dsent = TaskV::Mutate(MutateTaskV::Sent { op: dop, seq: None });
    lemma_turn(
        d1,
        env,
        Some(replies[0]),
        none.push(dwait).push(dsent),
        TaskV::Remote(RemoteTaskV::DestroyThread),
    );
    lemma_goes(d1, env, Some(replies[0]), 4);
    assert(talked(d, env, replies, 1) == one_step(d1, env, Some(replies[0])));
    if k == emails.len() - 1 {
        let more = replies.push(ReplyV::Done(Ok(())));
        lemma_talked_same(m, env, replies, more, k + 1);
        let n = talked(m, env, more, k + 1).0;
        let reply = more[k + 1];
        let ids = emails.map_values(|e: EmailV| e.id);
        lemma_turn(
            n,
            env,
            Some(reply),
            none.push(wait).push(sent),
            TaskV::Remote(RemoteTaskV::Moving { ids, next: (k + 1) as usize, to }),
        );
        let n1 = one_step(n, env, Some(reply)).0;
        assert(turn_of(b, env, sent, EventV::Returned(OutcomeV::Unit(Ok(())))) == (
            b,
            TurnV::Return(OutcomeV::Unit(Ok(()))),
        )) by {
            reveal(turn_of);
        }
        lemma_turn(n1, env, None, none.push(wait), sent);
        let n2 = one_step(n1, env, None).0;
        assert(turn_of(b, env, wait, EventV::Returned(OutcomeV::Unit(Ok(())))) == (
            b,
            TurnV::Say {
                task: None,
                response: changed(op_id, thread_id, EmailMutationAction::Move, Ok(())),
            },
        )) by {
            reveal(turn_of);
        }
        lemma_turn(n2, env, None, none, wait);
        lemma_goes(n, env, Some(reply), 4);
        lemma_goes(n1, env, None, 3);
        lemma_goes(n2, env, None, 2);
    }
}

proof fn lemma_talked_same(
    m: BackendV,
    env: BackendEnvV,
    replies: Seq<ReplyV>,
    more: Seq<ReplyV>,
    k: int,
)
    requires
        k <= replies.len(),
        replies.is_prefix_of(more),
    ensures
        talked(m, env, more, k) == talked(m, env, replies, k),
    decreases k,
{
    if k > 0 {
        lemma_talked_same(m, env, replies, more, k - 1);
        assert(more.subrange(0, replies.len() as int) =~= replies);
        assert(more[k - 1] == more.subrange(0, replies.len() as int)[k - 1]);
    }
}

proof fn lemma_thread_start(
    b: BackendStateV,
    env: BackendEnvV,
    cmd: BackendCommandV,
    op: QueuedMutationV,
)
    requires
        !b.offline,
        b.cache is None,
        cmd is MoveThread || cmd is DestroyThread,
        operation_of(cmd) == Some(op),
        remote_start(op) is Call,
    ensures
        goes_on(begun(b, cmd), env, None, 4) == (
            BackendV {
                state: b,
                stack: Seq::<TaskV>::empty().push(
                    TaskV::Command(CommandTaskV::Mutation { cmd, updated: 0 }),
                ).push(TaskV::Mutate(MutateTaskV::Sent { op, seq: None })).push(
                    remote_start(op)->Call_task,
                ),
                returned: None,
            },
            OutputV::Ask(remote_start(op)->request),
        ),
{
    let none = Seq::<TaskV>::empty();
    let start = TaskV::Command(CommandTaskV::Start { cmd });
    let wait = TaskV::Command(CommandTaskV::Mutation { cmd, updated: 0 });
    let mutate = TaskV::Mutate(MutateTaskV::Start { op });
    let sent = TaskV::Mutate(MutateTaskV::Sent { op, seq: None });
    let begin = TaskV::Remote(RemoteTaskV::Start { op });
    assert(turn_of(b, env, start, EventV::Go) == (
        b,
        TurnV::Spawn { task: wait, child: mutate },
    )) by {
        reveal(turn_of);
    }
    assert(turn_of(b, env, mutate, EventV::Go) == (
        b,
        TurnV::Spawn { task: sent, child: begin },
    )) by {
        reveal(turn_of);
    }
    assert(turn_of(b, env, begin, EventV::Go) == (b, remote_start(op))) by {
        reveal(turn_of);
    }
    let m = begun(b, cmd);
    assert(m.stack =~= none.push(start));
    lemma_turn(m, env, None, none, start);
    let m1 = one_step(m, env, None).0;
    lemma_turn(m1, env, None, none.push(wait), mutate);
    let m2 = one_step(m1, env, None).0;
    lemma_turn(m2, env, None, none.push(wait).push(sent), begin);
    lemma_goes(m, env, None, 4);
    lemma_goes(m1, env, None, 3);
    lemma_goes(m2, env, None, 2);
}

proof fn lemma_thread_moving(
    b: BackendStateV,
    env: BackendEnvV,
    op_id: u64,
    thread_id: Seq<char>,
    to: Seq<char>,
    emails: Seq<EmailV>,
    k: int,
)
    requires
        !b.offline,
        b.cache is None,
        1 <= k <= emails.len() < usize::MAX,
    ensures
        ({
            let cmd = BackendCommandV::MoveThread { op_id, thread_id, to_mailbox_id: to };
            let op = QueuedMutationV::MoveThread { op_id, thread_id, to_mailbox_id: to };
            let ids = emails.map_values(|e: EmailV| e.id);
            talked(begun(b, cmd), env, thread_replies(emails), k) == (
                BackendV {
                    state: b,
                    stack: Seq::<TaskV>::empty().push(
                        TaskV::Command(CommandTaskV::Mutation { cmd, updated: 0 }),
                    ).push(TaskV::Mutate(MutateTaskV::Sent { op, seq: None })).push(
                        TaskV::Remote(RemoteTaskV::Moving { ids, next: k as usize, to }),
                    ),
                    returned: None,
                },
                OutputV::Ask(RequestV::MoveEmail { id: emails[k - 1].id, to }),
            )
        }),
    decreases k,
{
    let cmd = BackendCommandV::MoveThread { op_id, thread_id, to_mailbox_id: to };
    let op = QueuedMutationV::MoveThread { op_id, thread_id, to_mailbox_id: to };
    let ids = emails.map_values(|e: EmailV| e.id);
    let replies = thread_replies(emails);
    let none = Seq::<TaskV>::empty();
    let wait = TaskV::Command(CommandTaskV::Mutation { cmd, updated: 0 });
    let sent = TaskV::Mutate(MutateTaskV::Sent { op, seq: None });
    assert forall|t: RemoteTaskV, ev: EventV| #![trigger turn_of(b, env, TaskV::Remote(t), ev)]
        turn_of(b, env, TaskV::Remote(t), ev) == remote_next(b, t, ev) by {
        reveal(turn_of);
    }
    let m = begun(b, cmd);
    if k == 1 {
        lemma_thread_start(b, env, cmd, op);
        let m1 = goes_on(m, env, None, 4).0;
        assert(talked(m, env, replies, 0) == goes_on(m, env, None, 4));
        lemma_turn(
            m1,
            env,
            Some(replies[0]),
            none.push(wait).push(sent),
            TaskV::Remote(RemoteTaskV::MoveThread { to }),
        );
        lemma_goes(m1, env, Some(replies[0]), 4);
    } else {
        lemma_thread_moving(b, env, op_id, thread_id, to, emails, k - 1);
        let m1 = talked(m, env, replies, k - 1).0;
        lemma_turn(
            m1,
            env,
            Some(replies[k - 1]),
            none.push(wait).push(sent),
            TaskV::Remote(RemoteTaskV::Moving { ids, next: (k - 1) as usize, to }),
        );
        lemma_goes(m1, env, Some(replies[k - 1]), 4);
    }
}

// ---------------------------------------------------------------------------
// The beginning
// ---------------------------------------------------------------------------

/// With a server, the work on an account begins with the change that has waited longest;
/// without one, or where nothing waits, it waits for a command. The mailboxes are those
/// that the cache knows, and what is kept is the cache as it was.
pub proof fn law_work_begins_with_what_waits(c: CacheV, env: BackendEnvV, replies: Seq<ReplyV>)
    requires
        c.op_queue.len() <= usize::MAX,
    ensures
        ({
            let online = work_on(Some(c), false);
            let offline = work_on(Some(c), true);
            let known = match c.mailboxes {
                Some(ms) => ms,
                None => Seq::empty(),
            };
            &&& online.state.cache == Some(c) && offline.state.cache == Some(c)
            &&& online.state.mailboxes == known && offline.state.mailboxes == known
            &&& !online.state.offline && offline.state.offline
            &&& c.op_queue.len() > 0 ==> talked(online, env, replies, 0).1 == OutputV::Ask(
                RequestV::Decode { payload: c.op_queue[0].1 },
            ) && online == replaying(online.state, c.op_queue, 0)
            &&& c.op_queue.len() == 0 ==> talked(online, env, replies, 0).1 is Idle
            &&& talked(offline, env, replies, 0).1 is Idle
        }),
{
    let none = Seq::<TaskV>::empty();
    let online = work_on(Some(c), false);
    let offline = work_on(Some(c), true);
    let first = TaskV::Replay(ReplayTaskV::Next { queue: c.op_queue, next: 0 });
    assert(online.stack =~= none.push(first));
    assert(turn_of(online.state, env, first, EventV::Go) == replay_next(
        online.state,
        ReplayTaskV::Next { queue: c.op_queue, next: 0 },
        EventV::Go,
    )) by {
        reveal(turn_of);
    }
    lemma_turn(online, env, None, none, first);
    lemma_goes(online, env, None, 4);
    assert(one_step(offline, env, None) == (offline, OutputV::Idle)) by {
        reveal(one_step);
    }
    lemma_goes(offline, env, None, 4);
    if c.op_queue.len() == 0 {
        let m = one_step(online, env, None).0;
        assert(m.stack =~= none);
        assert(one_step(m, env, None) == (m, OutputV::Idle)) by {
            reveal(one_step);
        }
        lemma_goes(m, env, None, 3);
    }
}

/// A command that idle work takes up is begun at once; one that ends the work leaves it
/// idle.
pub proof fn law_commands_are_taken_up(m: BackendV, cmd: BackendCommandV)
    requires
        m.stack.len() == 0,
    ensures
        !(cmd is Shutdown) ==> command_taken(m, cmd) == begun(m.state, cmd),
        cmd is Shutdown ==> command_taken(m, cmd).stack.len() == 0 && command_taken(m, cmd).state
            == m.state,
{
    assert(m.stack.push(TaskV::Command(CommandTaskV::Start { cmd })) =~= seq![
        TaskV::Command(CommandTaskV::Start { cmd }),
    ]);
}

// ---------------------------------------------------------------------------
// What is known at once
// ---------------------------------------------------------------------------

/// A console is shown at once what the cache knows of the first page of a mailbox, and of
/// the mailboxes, and the server is asked all the same; a session of commands is told only
/// what the server says.
pub proof fn law_cache_is_shown_before_the_server_answers(
    b: BackendStateV,
    env: BackendEnvV,
    origin: Seq<char>,
    mailbox_id: Seq<char>,
    page_size: u32,
    emails: Seq<EmailV>,
    ms: Seq<MailboxV>,
)
    requires
        !b.offline,
        b.cache is Some,
        mailbox_emails(b.cache->0, mailbox_id) == Some(emails),
        b.cache->0.mailboxes == Some(ms),
        ms.len() > 0,
    ensures
        ({
            let cmd = BackendCommandV::QueryEmails {
                origin,
                mailbox_id,
                page_size,
                position: 0,
                search_query: None,
                received_after: None,
                received_before: None,
            };
            let ask = OutputV::Ask(
                RequestV::QueryEmails {
                    mailbox_id,
                    page_size,
                    position: 0,
                    search_query: None,
                    received_after: None,
                    received_before: None,
                },
            );
            let (m, out) = goes_on(begun(b, cmd), env, None, 4);
            let list = BackendCommandV::FetchMailboxes { origin };
            let (l, listed) = goes_on(begun(b, list), env, None, 4);
            let scripted = begins(origin, "cli"@);
            &&& !scripted ==> (out matches OutputV::Tell(
                BackendResponseV::Emails { mailbox_id: at, emails: known, .. },
            ) && at == mailbox_id && known == Ok::<Seq<EmailV>, Seq<char>>(emails))
            &&& !scripted ==> goes_on(m, env, None, 4).1 == ask
            &&& scripted ==> out == ask
            &&& !scripted ==> listed == OutputV::Tell(BackendResponseV::Mailboxes(Ok(ms)))
                && goes_on(l, env, None, 4).1 == OutputV::Ask(RequestV::GetMailboxes)
            &&& scripted ==> listed == OutputV::Ask(RequestV::GetMailboxes)
        }),
{
    let none = Seq::<TaskV>::empty();
    let cmd = BackendCommandV::QueryEmails {
        origin,
        mailbox_id,
        page_size,
        position: 0,
        search_query: None,
        received_after: None,
        received_before: None,
    };
    let list = BackendCommandV::FetchMailboxes { origin };
    assert forall|c: BackendStateV, x: BackendCommandV, ev: EventV|
        #![trigger turn_of(c, env, TaskV::Command(CommandTaskV::Start { cmd: x }), ev)]
        !c.offline implies turn_of(c, env, TaskV::Command(CommandTaskV::Start { cmd: x }), ev)
        == online_start(c, x) by {
        reveal(turn_of);
    }
    assert forall|c: BackendStateV, t: CommandTaskV, ev: EventV|
        #![trigger turn_of(c, env, TaskV::Command(t), ev)]
        turn_of(c, env, TaskV::Command(t), ev) == command_next(c, env, t, ev) by {
        reveal(turn_of);
    }
    let start = TaskV::Command(CommandTaskV::Start { cmd });
    let m = begun(b, cmd);
    assert(m.stack =~= none.push(start));
    lemma_turn(m, env, None, none, start);
    lemma_goes(m, env, None, 4);
    let n = begun(b, list);
    let begin = TaskV::Command(CommandTaskV::Start { cmd: list });
    assert(n.stack =~= none.push(begin));
    lemma_turn(n, env, None, none, begin);
    lemma_goes(n, env, None, 4);
    if !begins(origin, "cli"@) {
        let m1 = one_step(m, env, None).0;
        lemma_turn(m1, env, None, none, TaskV::Command(CommandTaskV::PageStart { cmd }));
        lemma_goes(m1, env, None, 4);
        let n1 = one_step(n, env, None).0;
        lemma_turn(n1, env, None, none, TaskV::Command(CommandTaskV::Fetch));
        lemma_goes(n1, env, None, 4);
    }
}

/// A waiting move or deletion of a message that the server says is not there has nothing
/// left to do: it leaves the queue like one that was carried out. Any other refusal keeps
/// it, and all behind it, waiting.
pub proof fn law_gone_messages_are_not_waited_for(
    b: BackendStateV,
    env: BackendEnvV,
    queue: Seq<(u64, Seq<u8>)>,
    next: usize,
    op: QueuedMutationV,
    e: Seq<char>,
)
    requires
        b.cache is Some,
        next < queue.len() <= usize::MAX,
        op is MoveEmail || op is DestroyEmail || op is MoveThread || op is DestroyThread,
    ensures
        ({
            let l = crate::text::ascii_lower(e);
            let gone = has(l, "not found"@) || has(l, "notfound"@) || has(l, "unknown"@) || has(
                l,
                "invalid email id"@,
            );
            let c = b.cache->0;
            let t = TaskV::Replay(ReplayTaskV::Sent { queue, next, op });
            let (after, turn) = turn_of(b, env, t, EventV::Returned(OutcomeV::Unit(Err(e))));
            &&& !gone ==> after == b && turn is Finish
            &&& gone ==> after.cache is Some && after.cache->0.op_queue == unqueued_upto(
                c.op_queue,
                queue[next as int].0,
                c.op_queue.len() as int,
            )
            &&& gone && next + 1 < queue.len() ==> (turn matches TurnV::Call {
                request: RequestV::Decode { payload },
                ..
            } && payload == queue[next + 1].1)
        }),
{
    reveal(turn_of);
}

proof fn lemma_unqueued_filter(q: Seq<(u64, Seq<u8>)>, seq: u64, k: int)
    requires
        0 <= k <= q.len(),
    ensures
        unqueued_upto(q, seq, k) == q.take(k).filter(|x: (u64, Seq<u8>)| x.0 != seq),
    decreases k,
{
    reveal(Seq::filter);
    if k > 0 {
        lemma_unqueued_filter(q, seq, k - 1);
        assert(q.take(k).drop_last() =~= q.take(k - 1));
        assert(q.take(k).last() == q[k - 1]);
    } else {
        assert(q.take(0) =~= Seq::empty());
    }
}

/// What leaves the queue is the change of that number and no other; all others stay in
/// order.
pub proof fn law_only_the_settled_change_leaves(q: Seq<(u64, Seq<u8>)>, seq: u64)
    ensures
        unqueued_upto(q, seq, q.len() as int) == q.filter(|x: (u64, Seq<u8>)| x.0 != seq),
{
    lemma_unqueued_filter(q, seq, q.len() as int);
    assert(q.take(q.len() as int) =~= q);
}

} // verus!
