//! Rules: what a condition looks at, when a rule fires, what it asks for and which
//! request carries that out.

use vstd::prelude::*;

use regex::Regex;

use crate::backend::queue::{id_after, mutation_for, mutations_for_upto, rule_mutations_upto};
use crate::backend::tasks::dry_run_upto;
use crate::backend::QueuedMutationV;
use crate::cache::unprocessed_upto;
use crate::data::lookup;
use crate::jmap::types::{shown_address, EmailAddressV, EmailV, MailboxV};
use crate::json::JsonV;
use crate::pattern::{regex_found, regex_of};
use crate::rules::{
    actions_of, applications_from, applications_upto, compiled, compiled_rule, compiled_rules_upto,
    compiled_upto, custom_upto, effective, effective_upto, exact_role_index, fires, full_path,
    has_role_folded, headers_in, headers_in_upto, holds, last_with_id, law_connectives,
    mailbox_with_role, named_index, path_index, resolved_mailbox, role_index, rule_headers_upto,
    shown_addresses, standard_header, step_for, steps_for_upto, steps_upto, suggestion_from,
    with_text, ActionV, ActionsDefV, CompiledConditionV, CompiledRuleV, ConditionDefV, MailboxStepV,
    RuleApplicationV, RuleDefV, TriageHintActionDef,
};
use crate::text::{joined, joined_upto, lowercase, pieces};

verus! {

// ---------------------------------------------------------------------------
// Lists of texts and addresses
// ---------------------------------------------------------------------------

proof fn lemma_joined_add(s: Seq<Seq<char>>, t: Seq<Seq<char>>, sep: Seq<char>, k: int)
    requires
        s.len() > 0,
        1 <= k <= t.len(),
    ensures
        joined_upto(s + t, sep, s.len() + k) == joined(s, sep) + sep + joined_upto(t, sep, k),
    decreases k,
{
    let all = s + t;
    lemma_joined_prefix(s, all, sep, s.len() as int);
    if k > 1 {
        lemma_joined_add(s, t, sep, k - 1);
        assert(all[s.len() + k - 1] == t[k - 1]);
        assert(joined(s, sep) + sep + joined_upto(t, sep, k - 1) + sep + t[k - 1] =~= joined(s, sep)
            + sep + (joined_upto(t, sep, k - 1) + sep + t[k - 1]));
    } else {
        assert(all[s.len() as int] == t[0]);
        assert(joined_upto(all, sep, (s.len() + 1) as int) == joined_upto(all, sep, s.len() as int) + sep
            + all[s.len() as int]);
    }
}

proof fn lemma_joined_prefix(s: Seq<Seq<char>>, all: Seq<Seq<char>>, sep: Seq<char>, k: int)
    requires
        0 <= k <= s.len() <= all.len(),
        forall|i: int| 0 <= i < s.len() ==> #[trigger] all[i] == s[i],
    ensures
        joined_upto(all, sep, k) == joined_upto(s, sep, k),
    decreases k,
{
    if k > 1 {
        lemma_joined_prefix(s, all, sep, k - 1);
        assert(all[k - 1] == s[k - 1]);
    } else if k == 1 {
        assert(all[0] == s[0]);
    }
}

/// Texts are joined in order, with the separator between neighbours and nowhere else.
pub proof fn law_joined(s: Seq<Seq<char>>, t: Seq<Seq<char>>, a: Seq<char>, sep: Seq<char>)
    ensures
        joined(Seq::empty(), sep) == Seq::<char>::empty(),
        joined(seq![a], sep) == a,
        s.len() > 0 && t.len() > 0 ==> joined(s + t, sep) == joined(s, sep) + sep + joined(t, sep),
{
    if s.len() > 0 && t.len() > 0 {
        lemma_joined_add(s, t, sep, t.len() as int);
        assert((s + t).len() == s.len() + t.len());
    }
}

/// An address is shown with its name before the address proper in angle brackets, or as
/// the one of them that there is; addresses are listed in order, with a comma and a
/// space between them.
pub proof fn law_addresses_are_shown_whole(
    name: Seq<char>,
    email: Seq<char>,
    a: Seq<EmailAddressV>,
    b: Seq<EmailAddressV>,
)
    ensures
        shown_address(EmailAddressV { name: Some(name), email: Some(email) }) == name + " <"@
            + email + ">"@,
        shown_address(EmailAddressV { name: None, email: Some(email) }) == email,
        shown_address(EmailAddressV { name: Some(name), email: None }) == name,
        a.len() == 1 ==> shown_addresses(a) == shown_address(a[0]),
        a.len() > 0 && b.len() > 0 ==> shown_addresses(a + b) == shown_addresses(a) + ", "@
            + shown_addresses(b),
{
    let f = |x: EmailAddressV| shown_address(x);
    assert((a + b).map_values(f) =~= a.map_values(f) + b.map_values(f));
    law_joined(a.map_values(f), b.map_values(f), Seq::empty(), ", "@);
    if a.len() == 1 {
        assert(a.map_values(f) =~= seq![shown_address(a[0])]);
        law_joined(Seq::empty(), Seq::empty(), shown_address(a[0]), ", "@);
    }
}

// ---------------------------------------------------------------------------
// Conditions
// ---------------------------------------------------------------------------

/// Whether a pattern is found in a list of addresses, if there is one.
pub open spec fn found_in(re: Regex, addrs: Option<Seq<EmailAddressV>>) -> bool {
    match addrs {
        Some(list) => regex_found(
            re,
            joined(list.map_values(|a: EmailAddressV| shown_address(a)), ", "@),
        ),
        None => false,
    }
}

/// A condition on a header holds of a message exactly when the pattern is found in what
/// the message has under that header, whatever the case of the header's name: its
/// senders, its recipients, those that get a copy, those a reply goes to, its subject or
/// its message ids; and for any other header, in the text that the message was fetched
/// with under it.
pub proof fn law_condition_looks_at_its_own_header(e: EmailV, re: Regex, h: Seq<char>)
    ensures
        ({
            let held = holds(CompiledConditionV::Header { header: h, regex: re }, e);
            let low = lowercase(h);
            &&& low == "from"@ ==> held == found_in(re, e.from)
            &&& low == "to"@ ==> held == found_in(re, e.to)
            &&& low == "cc"@ ==> held == found_in(re, e.cc)
            &&& low == "reply-to"@ ==> held == found_in(re, e.reply_to)
            &&& low == "subject"@ ==> held == match e.subject {
                Some(s) => regex_found(re, s),
                None => false,
            }
            &&& low == "message-id"@ ==> held == match e.message_id {
                Some(ids) => regex_found(re, joined(ids, " "@)),
                None => false,
            }
            &&& low != "from"@ && low != "to"@ && low != "cc"@ && low != "reply-to"@ && low
                != "subject"@ && low != "message-id"@ ==> held == match lookup(
                e.extra,
                "header:"@ + h + ":asText"@,
            ) {
                Some(JsonV::Text(s)) => regex_found(re, s),
                _ => false,
            }
        }),
{
    reveal_strlit("from");
    reveal_strlit("to");
    reveal_strlit("cc");
    reveal_strlit("reply-to");
    reveal_strlit("subject");
    reveal_strlit("message-id");
    assert("from"@.len() == 4 && "to"@.len() == 2 && "cc"@.len() == 2);
    assert("reply-to"@.len() == 8 && "subject"@.len() == 7 && "message-id"@.len() == 10);
    assert("to"@[0] != "cc"@[0]);
}

proof fn lemma_compiled_upto(defs: Seq<ConditionDefV>, k: int)
    requires
        0 <= k <= defs.len(),
    ensures
        compiled_upto(defs, k) is Ok <==> forall|i: int|
            0 <= i < k ==> (#[trigger] compiled(defs[i])) is Ok,
        match compiled_upto(defs, k) {
            Ok(v) => v.len() == k && forall|i: int|
                0 <= i < k ==> compiled(defs[i]) == Ok::<CompiledConditionV, Seq<char>>(
                    #[trigger] v[i],
                ),
            Err(_) => true,
        },
    decreases k,
{
    if k > 0 {
        lemma_compiled_upto(defs, k - 1);
        if compiled_upto(defs, k) is Ok {
            assert forall|i: int| 0 <= i < k implies (#[trigger] compiled(defs[i])) is Ok by {
                if i < k - 1 {
                    assert(compiled(defs[i]) is Ok);
                }
            }
        } else if compiled_upto(defs, k - 1) is Err {
            let i = choose|i: int| 0 <= i < k - 1 && !((#[trigger] compiled(defs[i])) is Ok);
            assert(!(compiled(defs[i]) is Ok));
        } else {
            assert(!(compiled(defs[k - 1]) is Ok));
        }
    }
}

/// A written condition compiles exactly when its patterns do, and then says what was
/// written: the pattern that the text denotes is looked for under the header that was
/// named; `all` holds when each part does, `any` when some part does, and `not` when its
/// part does not.
pub proof fn law_compiled_condition_says_what_was_written(
    header: Seq<char>,
    pattern: Seq<char>,
    parts: Seq<ConditionDefV>,
    part: ConditionDefV,
    e: EmailV,
)
    ensures
        ({
            let written = ConditionDefV::Header { header, regex: pattern };
            &&& compiled(written) is Ok <==> regex_of(pattern) is Ok
            &&& regex_of(pattern) matches Ok(re) ==> compiled(written)->Ok_0 == (
            CompiledConditionV::Header { header, regex: re })
        }),
        ({
            let all = compiled(ConditionDefV::All { all: parts });
            let any = compiled(ConditionDefV::Any { any: parts });
            let ready = forall|i: int|
                0 <= i < parts.len() ==> (#[trigger] compiled(parts[i])) is Ok;
            &&& all is Ok <==> ready
            &&& any is Ok <==> ready
            &&& ready ==> (holds(all->Ok_0, e) <==> forall|i: int|
                0 <= i < parts.len() ==> holds((#[trigger] compiled(parts[i]))->Ok_0, e))
            &&& ready ==> (holds(any->Ok_0, e) <==> exists|i: int|
                0 <= i < parts.len() && holds((#[trigger] compiled(parts[i]))->Ok_0, e))
        }),
        ({
            let not = compiled(ConditionDefV::Not { not: Box::new(part) });
            &&& not is Ok <==> compiled(part) is Ok
            &&& not is Ok ==> holds(not->Ok_0, e) == !holds(compiled(part)->Ok_0, e)
        }),
{
    lemma_compiled_upto(parts, parts.len() as int);
    let all = compiled(ConditionDefV::All { all: parts });
    let any = compiled(ConditionDefV::Any { any: parts });
    if all is Ok {
        let v = compiled_upto(parts, parts.len() as int)->Ok_0;
        law_connectives(v, arbitrary(), e);
        assert(all->Ok_0 == CompiledConditionV::All(v));
        assert(any->Ok_0 == CompiledConditionV::Any(v));
        assert forall|i: int| 0 <= i < parts.len() implies (#[trigger] compiled(parts[i]))->Ok_0
            == v[i] by {
            assert(compiled(parts[i]) == Ok::<CompiledConditionV, Seq<char>>(v[i]));
        }
        if holds(any->Ok_0, e) {
            let i = choose|i: int| 0 <= i < v.len() && #[trigger] holds(v[i], e);
            assert(holds(compiled(parts[i])->Ok_0, e));
        }
        if exists|i: int| 0 <= i < parts.len() && holds((#[trigger] compiled(parts[i]))->Ok_0, e) {
            let i = choose|i: int|
                0 <= i < parts.len() && holds((#[trigger] compiled(parts[i]))->Ok_0, e);
            assert(holds(v[i], e));
        }
        if holds(all->Ok_0, e) {
            assert forall|i: int| 0 <= i < parts.len() implies holds(
                (#[trigger] compiled(parts[i]))->Ok_0,
                e,
            ) by {
                assert(holds(v[i], e));
            }
        }
        if forall|i: int| 0 <= i < parts.len() ==> holds((#[trigger] compiled(parts[i]))->Ok_0, e) {
            assert forall|i: int| 0 <= i < v.len() implies #[trigger] holds(v[i], e) by {
                assert(holds(compiled(parts[i])->Ok_0, e));
            }
        }
    }
    if compiled(part) is Ok {
        law_connectives(Seq::empty(), compiled(part)->Ok_0, e);
    }
}

// ---------------------------------------------------------------------------
// Actions
// ---------------------------------------------------------------------------

/// The place of an action among those of a rule.
pub open spec fn action_rank(a: ActionV) -> int {
    match a {
        ActionV::MarkRead => 0,
        ActionV::MarkUnread => 1,
        ActionV::Flag => 2,
        ActionV::Unflag => 3,
        ActionV::Move { .. } => 4,
        ActionV::Delete => 5,
    }
}

/// A rule has exactly the actions that are switched on, each once and in one order, and
/// keeps its name and its settings; what is not set is off.
pub proof fn law_rule_does_what_was_written(def: RuleDefV, target: Seq<char>)
    requires
        compiled_rule(def) is Ok,
    ensures
        ({
            let r = compiled_rule(def)->Ok_0;
            let d = def.actions;
            &&& r.name == def.name
            &&& r.continue_processing == (def.continue_processing == Some(true))
            &&& r.skip_if_to_me == (def.skip_if_to_me == Some(true))
            &&& compiled(def.match_condition) == Ok::<CompiledConditionV, Seq<char>>(r.condition)
            &&& r.triage_action == match def.triage {
                Some(t) => Some(t.action),
                None => None,
            }
            &&& r.actions.contains(ActionV::MarkRead) <==> d.mark_read == Some(true)
            &&& r.actions.contains(ActionV::MarkUnread) <==> d.mark_unread == Some(true)
            &&& r.actions.contains(ActionV::Flag) <==> d.flag == Some(true)
            &&& r.actions.contains(ActionV::Unflag) <==> d.unflag == Some(true)
            &&& r.actions.contains(ActionV::Move { target }) <==> d.move_to == Some(target)
            &&& r.actions.contains(ActionV::Delete) <==> d.delete == Some(true)
            &&& forall|i: int, j: int|
                0 <= i < j < r.actions.len() ==> action_rank(#[trigger] r.actions[i]) < action_rank(
                    #[trigger] r.actions[j],
                )
        }),
{
    lemma_actions(def.actions, target);
}

/// The actions, in order, each of one rank between two bounds.
#[verifier::opaque]
spec fn ranked(s: Seq<ActionV>, lo: int, hi: int) -> bool {
    &&& forall|i: int| 0 <= i < s.len() ==> lo <= action_rank(#[trigger] s[i]) < hi
    &&& forall|i: int, j: int|
        0 <= i < j < s.len() ==> action_rank(#[trigger] s[i]) < action_rank(#[trigger] s[j])
}

proof fn lemma_ranked_add(s: Seq<ActionV>, t: Seq<ActionV>, lo: int, mid: int, hi: int)
    requires
        lo <= mid <= hi,
        ranked(s, lo, mid),
        ranked(t, mid, hi),
    ensures
        ranked(s + t, lo, hi),
{
    reveal(ranked);
    let all = s + t;
    assert forall|i: int| 0 <= i < all.len() implies lo <= action_rank(#[trigger] all[i]) < hi by {
        if i < s.len() {
            assert(all[i] == s[i]);
        } else {
            assert(all[i] == t[i - s.len()]);
        }
    }
    assert forall|i: int, j: int| 0 <= i < j < all.len() implies action_rank(#[trigger] all[i])
        < action_rank(#[trigger] all[j]) by {
        if j < s.len() {
            assert(all[i] == s[i] && all[j] == s[j]);
        } else if i < s.len() {
            assert(all[i] == s[i] && all[j] == t[j - s.len()]);
        } else {
            assert(all[i] == t[i - s.len()] && all[j] == t[j - s.len()]);
        }
    }
}

proof fn lemma_actions(d: ActionsDefV, target: Seq<char>)
    ensures
        ({
            let all = actions_of(d);
            &&& all.contains(ActionV::MarkRead) <==> d.mark_read == Some(true)
            &&& all.contains(ActionV::MarkUnread) <==> d.mark_unread == Some(true)
            &&& all.contains(ActionV::Flag) <==> d.flag == Some(true)
            &&& all.contains(ActionV::Unflag) <==> d.unflag == Some(true)
            &&& all.contains(ActionV::Move { target }) <==> d.move_to == Some(target)
            &&& all.contains(ActionV::Delete) <==> d.delete == Some(true)
            &&& forall|i: int, j: int|
                0 <= i < j < all.len() ==> action_rank(#[trigger] all[i]) < action_rank(
                    #[trigger] all[j],
                )
        }),
{
    let a = on(d.mark_read == Some(true), ActionV::MarkRead);
    let b = on(d.mark_unread == Some(true), ActionV::MarkUnread);
    let c = on(d.flag == Some(true), ActionV::Flag);
    let f = on(d.unflag == Some(true), ActionV::Unflag);
    let moved = ActionV::Move { target: d.move_to->0 };
    let g = on(d.move_to is Some, moved);
    let h = on(d.delete == Some(true), ActionV::Delete);
    assert(actions_of(d) == a + b + c + f + g + h);
    lemma_on(d.mark_read == Some(true), ActionV::MarkRead, ActionV::MarkRead);
    lemma_on(d.mark_unread == Some(true), ActionV::MarkUnread, ActionV::MarkUnread);
    lemma_on(d.flag == Some(true), ActionV::Flag, ActionV::Flag);
    lemma_on(d.unflag == Some(true), ActionV::Unflag, ActionV::Unflag);
    lemma_on(d.move_to is Some, moved, ActionV::Move { target });
    lemma_on(d.delete == Some(true), ActionV::Delete, ActionV::Delete);
    lemma_ranked_add(a, b, 0, 1, 2);
    lemma_ranked_add(a + b, c, 0, 2, 3);
    lemma_ranked_add(a + b + c, f, 0, 3, 4);
    lemma_ranked_add(a + b + c + f, g, 0, 4, 5);
    lemma_ranked_add(a + b + c + f + g, h, 0, 5, 6);
    lemma_one_action(a, b, c, f, g, h, ActionV::MarkRead);
    lemma_one_action(a, b, c, f, g, h, ActionV::MarkUnread);
    lemma_one_action(a, b, c, f, g, h, ActionV::Flag);
    lemma_one_action(a, b, c, f, g, h, ActionV::Unflag);
    lemma_one_action(a, b, c, f, g, h, ActionV::Move { target });
    lemma_one_action(a, b, c, f, g, h, ActionV::Delete);
    lemma_rank_of(actions_of(d), 0, 6, ActionV::Delete);
}

/// An action that is switched on or not.
spec fn on(b: bool, x: ActionV) -> Seq<ActionV> {
    if b {
        seq![x]
    } else {
        Seq::empty()
    }
}

proof fn lemma_on(b: bool, x: ActionV, y: ActionV)
    ensures
        on(b, x).contains(y) <==> b && x == y,
        ranked(on(b, x), action_rank(x), action_rank(x) + 1),
{
    reveal(ranked);
    if b {
        assert(on(b, x)[0] == x);
    }
}

proof fn lemma_one_action(
    a: Seq<ActionV>,
    b: Seq<ActionV>,
    c: Seq<ActionV>,
    f: Seq<ActionV>,
    g: Seq<ActionV>,
    h: Seq<ActionV>,
    x: ActionV,
)
    requires
        ranked(a, 0, 1),
        ranked(b, 1, 2),
        ranked(c, 2, 3),
        ranked(f, 3, 4),
        ranked(g, 4, 5),
        ranked(h, 5, 6),
    ensures
        (a + b + c + f + g + h).contains(x) <==> if action_rank(x) == 0 {
            a.contains(x)
        } else if action_rank(x) == 1 {
            b.contains(x)
        } else if action_rank(x) == 2 {
            c.contains(x)
        } else if action_rank(x) == 3 {
            f.contains(x)
        } else if action_rank(x) == 4 {
            g.contains(x)
        } else {
            h.contains(x)
        },
{
    lemma_add_contains(a, b, x);
    lemma_add_contains(a + b, c, x);
    lemma_add_contains(a + b + c, f, x);
    lemma_add_contains(a + b + c + f, g, x);
    lemma_add_contains(a + b + c + f + g, h, x);
    lemma_rank_of(a, 0, 1, x);
    lemma_rank_of(b, 1, 2, x);
    lemma_rank_of(c, 2, 3, x);
    lemma_rank_of(f, 3, 4, x);
    lemma_rank_of(g, 4, 5, x);
    lemma_rank_of(h, 5, 6, x);
}

proof fn lemma_rank_of(s: Seq<ActionV>, lo: int, hi: int, x: ActionV)
    requires
        ranked(s, lo, hi),
    ensures
        s.contains(x) ==> lo <= action_rank(x) < hi,
        forall|i: int, j: int|
            0 <= i < j < s.len() ==> action_rank(#[trigger] s[i]) < action_rank(#[trigger] s[j]),
{
    reveal(ranked);
    if s.contains(x) {
        let i = choose|i: int| 0 <= i < s.len() && s[i] == x;
        assert(lo <= action_rank(s[i]) < hi);
    }
}

proof fn lemma_add_contains<A>(s: Seq<A>, t: Seq<A>, x: A)
    ensures
        (s + t).contains(x) <==> s.contains(x) || t.contains(x),
{
    let all = s + t;
    if s.contains(x) {
        let i = choose|i: int| 0 <= i < s.len() && s[i] == x;
        assert(all[i] == x);
    }
    if t.contains(x) {
        let i = choose|i: int| 0 <= i < t.len() && t[i] == x;
        assert(all[s.len() + i] == x);
    }
    if all.contains(x) {
        let i = choose|i: int| 0 <= i < all.len() && all[i] == x;
        if i < s.len() {
            assert(s[i] == x);
        } else {
            assert(t[i - s.len()] == x);
        }
    }
}

/// The text of the recipients of a message: those it is to, and those that get a copy.
pub open spec fn everyone(e: EmailV) -> Seq<char> {
    let to = match e.to {
        Some(list) => joined(list.map_values(|a: EmailAddressV| shown_address(a)), ", "@),
        None => Seq::empty(),
    };
    let cc = match e.cc {
        Some(list) => joined(list.map_values(|a: EmailAddressV| shown_address(a)), ", "@),
        None => Seq::empty(),
    };
    if e.cc is None {
        to
    } else if to.len() == 0 {
        cc
    } else {
        to + ", "@ + cc
    }
}

/// A rule fires on a message exactly when its condition holds, unless it is to be
/// skipped for mail to the user and the user's pattern is found among the recipients.
pub proof fn law_rule_fires_when_its_condition_holds(rule: CompiledRuleV, e: EmailV, me: Regex)
    ensures
        fires(rule, e, me) <==> holds(rule.condition, e) && !(rule.skip_if_to_me && everyone(e).len()
            > 0 && regex_found(me, everyone(e))),
{
    assert(crate::rules::recipients(e) =~= everyone(e));
}

/// Whether an action has something to change in a message: the mark is not as the action
/// wants it, or the message is not in the mailbox it is to go to, which exists.
pub open spec fn has_something_to_do(a: ActionV, e: EmailV, mailboxes: Seq<MailboxV>) -> bool {
    let seen = lookup(e.keywords, "$seen"@) is Some;
    let flagged = lookup(e.keywords, "$flagged"@) is Some;
    match a {
        ActionV::MarkRead => !seen,
        ActionV::MarkUnread => seen,
        ActionV::Flag => !flagged,
        ActionV::Unflag => flagged,
        ActionV::Move { target } => resolved_mailbox(target, mailboxes) is Some && lookup(
            e.mailbox_ids,
            resolved_mailbox(target, mailboxes)->0,
        ) is None,
        ActionV::Delete => true,
    }
}

proof fn lemma_effective_upto(actions: Seq<ActionV>, e: EmailV, mailboxes: Seq<MailboxV>, k: int)
    requires
        0 <= k <= actions.len(),
    ensures
        effective_upto(actions, e, mailboxes, k) == actions.take(k).filter(
            |a: ActionV| has_something_to_do(a, e, mailboxes),
        ),
    decreases k,
{
    let pred = |a: ActionV| has_something_to_do(a, e, mailboxes);
    reveal(Seq::filter);
    if k > 0 {
        lemma_effective_upto(actions, e, mailboxes, k - 1);
        assert(actions.take(k).drop_last() =~= actions.take(k - 1));
        assert(actions.take(k).last() == actions[k - 1]);
        assert(effective(actions[k - 1], e, mailboxes) == pred(actions[k - 1]));
    } else {
        assert(actions.take(0) =~= Seq::empty());
    }
}

/// Whether the rule at `j` asks for something on a message: it fires, each rule before it
/// that fires lets the next ones have their turn, and some of its actions have something
/// to do.
pub open spec fn asks(
    rules: Seq<CompiledRuleV>,
    e: EmailV,
    mailboxes: Seq<MailboxV>,
    me: Regex,
    from: int,
    j: int,
) -> bool {
    &&& fires(rules[j], e, me)
    &&& forall|i: int| from <= i < j && #[trigger] fires(rules[i], e, me) ==> rules[i].continue_processing
    &&& rules[j].actions.filter(|a: ActionV| has_something_to_do(a, e, mailboxes)).len() > 0
}

/// What the rule at `j` asks for on a message: those of its actions, in order, that have
/// something to do.
pub open spec fn asked(
    rules: Seq<CompiledRuleV>,
    e: EmailV,
    mailboxes: Seq<MailboxV>,
    j: int,
) -> RuleApplicationV {
    RuleApplicationV {
        email_id: e.id,
        rule_name: rules[j].name,
        actions: rules[j].actions.filter(|a: ActionV| has_something_to_do(a, e, mailboxes)),
    }
}

/// The numbers from one up to, not including, another.
pub open spec fn range(from: int, to: int) -> Seq<int> {
    Seq::new(
        if from < to {
            (to - from) as nat
        } else {
            0
        },
        |i: int| from + i,
    )
}

proof fn lemma_filter_same<A>(s: Seq<A>, p: spec_fn(A) -> bool, q: spec_fn(A) -> bool)
    requires
        forall|i: int| 0 <= i < s.len() ==> p(#[trigger] s[i]) == q(s[i]),
    ensures
        s.filter(p) == s.filter(q),
    decreases s.len(),
{
    reveal(Seq::filter);
    if s.len() > 0 {
        let t = s.drop_last();
        assert forall|i: int| 0 <= i < t.len() implies p(#[trigger] t[i]) == q(t[i]) by {
            assert(t[i] == s[i]);
        }
        lemma_filter_same(t, p, q);
        assert(p(s[s.len() - 1]) == q(s[s.len() - 1]));
    }
}

proof fn lemma_filter_none<A>(s: Seq<A>, p: spec_fn(A) -> bool)
    requires
        forall|i: int| 0 <= i < s.len() ==> !p(#[trigger] s[i]),
    ensures
        s.filter(p) == Seq::<A>::empty(),
    decreases s.len(),
{
    reveal(Seq::filter);
    if s.len() > 0 {
        let t = s.drop_last();
        assert forall|i: int| 0 <= i < t.len() implies !p(#[trigger] t[i]) by {
            assert(t[i] == s[i]);
        }
        lemma_filter_none(t, p);
        assert(!p(s[s.len() - 1]));
    }
}

proof fn lemma_filter_one<A>(a: A, p: spec_fn(A) -> bool)
    ensures
        seq![a].filter(p) == (if p(a) {
            seq![a]
        } else {
            Seq::empty()
        }),
{
    reveal(Seq::filter);
    assert(seq![a].drop_last() =~= Seq::<A>::empty());
    assert(Seq::<A>::empty().filter(p) =~= Seq::<A>::empty());
    assert(Seq::<A>::empty().push(a) =~= seq![a]);
}

proof fn lemma_applications_from(
    rules: Seq<CompiledRuleV>,
    e: EmailV,
    mailboxes: Seq<MailboxV>,
    me: Regex,
    j: int,
)
    requires
        0 <= j <= rules.len(),
    ensures
        applications_from(rules, e, mailboxes, me, j) == range(j, rules.len() as int).filter(
            |i: int| asks(rules, e, mailboxes, me, j, i),
        ).map_values(|i: int| asked(rules, e, mailboxes, i)),
    decreases rules.len() - j,
{
    let n = rules.len() as int;
    let here = |i: int| asks(rules, e, mailboxes, me, j, i);
    let show = |i: int| asked(rules, e, mailboxes, i);
    if j < n {
        let next = |i: int| asks(rules, e, mailboxes, me, j + 1, i);
        let rest = range(j + 1, n);
        lemma_applications_from(rules, e, mailboxes, me, j + 1);
        lemma_effective_upto(rules[j].actions, e, mailboxes, rules[j].actions.len() as int);
        assert(rules[j].actions.take(rules[j].actions.len() as int) =~= rules[j].actions);
        assert(range(j, n) =~= seq![j] + rest);
        Seq::filter_distributes_over_add(seq![j], rest, here);
        lemma_filter_one(j, here);
        let own = if here(j) {
            seq![j]
        } else {
            Seq::empty()
        };
        assert((own + rest.filter(here)).map_values(show) =~= own.map_values(show) + rest.filter(
            here,
        ).map_values(show));
        if here(j) {
            assert(own.map_values(show) =~= seq![asked(rules, e, mailboxes, j)]);
        } else {
            assert(own.map_values(show) =~= Seq::empty());
        }
        if fires(rules[j], e, me) && !rules[j].continue_processing {
            assert forall|i: int| 0 <= i < rest.len() implies !here(#[trigger] rest[i]) by {
                assert(fires(rules[j], e, me));
            }
            lemma_filter_none(rest, here);
            assert(rest.filter(here).map_values(show) =~= Seq::empty());
            assert(own.map_values(show) + Seq::<RuleApplicationV>::empty() =~= own.map_values(show));
        } else {
            assert forall|i: int| 0 <= i < rest.len() implies here(#[trigger] rest[i]) == next(
                rest[i],
            ) by {
                let r = rest[i];
                assert(j < r < n);
                if next(r) {
                    assert forall|k: int| j <= k < r && #[trigger] fires(
                        rules[k],
                        e,
                        me,
                    ) implies rules[k].continue_processing by {}
                }
            }
            lemma_filter_same(rest, here, next);
            assert(Seq::<RuleApplicationV>::empty() + rest.filter(next).map_values(show)
                =~= rest.filter(next).map_values(show));
        }
    } else {
        assert(range(j, n) =~= Seq::empty());
        lemma_filter_none(range(j, n), here);
        assert(Seq::<int>::empty().map_values(show) =~= Seq::empty());
    }
}

/// The rules ask on a message for what each rule that fires asks for, in the order of the
/// rules, up to and including the first that fires and does not let processing continue;
/// a rule asks for those of its actions that have something to do, and not at all if
/// there are none.
pub proof fn law_rules_ask_for_their_actions(
    rules: Seq<CompiledRuleV>,
    emails: Seq<EmailV>,
    e: EmailV,
    mailboxes: Seq<MailboxV>,
    me: Regex,
)
    ensures
        applications_upto(rules, seq![e], mailboxes, me, 1) == range(
            0,
            rules.len() as int,
        ).filter(|j: int| asks(rules, e, mailboxes, me, 0, j)).map_values(
            |j: int| asked(rules, e, mailboxes, j),
        ),
        applications_upto(rules, emails.push(e), mailboxes, me, (emails.len() + 1) as int)
            == applications_upto(rules, emails, mailboxes, me, emails.len() as int)
            + applications_upto(rules, seq![e], mailboxes, me, 1),
{
    lemma_applications_from(rules, e, mailboxes, me, 0);
    let from = applications_from(rules, e, mailboxes, me, 0);
    assert(seq![e][0] == e);
    assert(applications_upto(rules, seq![e], mailboxes, me, 0) =~= Seq::empty());
    assert(applications_upto(rules, seq![e], mailboxes, me, 1) =~= from);
    lemma_applications_prefix(rules, emails, emails.push(e), mailboxes, me, emails.len() as int);
    assert(emails.push(e)[emails.len() as int] == e);
}

proof fn lemma_applications_prefix(
    rules: Seq<CompiledRuleV>,
    emails: Seq<EmailV>,
    more: Seq<EmailV>,
    mailboxes: Seq<MailboxV>,
    me: Regex,
    k: int,
)
    requires
        0 <= k <= emails.len() <= more.len(),
        forall|i: int| 0 <= i < emails.len() ==> #[trigger] more[i] == emails[i],
    ensures
        applications_upto(rules, more, mailboxes, me, k) == applications_upto(
            rules,
            emails,
            mailboxes,
            me,
            k,
        ),
    decreases k,
{
    if k > 0 {
        lemma_applications_prefix(rules, emails, more, mailboxes, me, k - 1);
        assert(more[k - 1] == emails[k - 1]);
    }
}

// ---------------------------------------------------------------------------
// Mailboxes
// ---------------------------------------------------------------------------

proof fn lemma_named_index(s: Seq<MailboxV>, name: Seq<char>, i: int)
    requires
        0 <= i <= s.len(),
    ensures
        i <= named_index(s, name, i) <= s.len(),
        named_index(s, name, i) < s.len() ==> s[named_index(s, name, i)].name == name,
        forall|j: int| i <= j < named_index(s, name, i) ==> (#[trigger] s[j]).name != name,
    decreases s.len() - i,
{
    if i < s.len() && s[i].name != name {
        lemma_named_index(s, name, i + 1);
    }
}

proof fn lemma_role_index(s: Seq<MailboxV>, lower: Seq<char>, i: int)
    requires
        0 <= i <= s.len(),
    ensures
        i <= role_index(s, lower, i) <= s.len(),
        role_index(s, lower, i) < s.len() ==> has_role_folded(s[role_index(s, lower, i)], lower),
        forall|j: int| i <= j < role_index(s, lower, i) ==> !has_role_folded(#[trigger] s[j], lower),
    decreases s.len() - i,
{
    if i < s.len() && !has_role_folded(s[i], lower) {
        lemma_role_index(s, lower, i + 1);
    }
}

proof fn lemma_path_index(s: Seq<MailboxV>, leaf: Seq<char>, name: Seq<char>, i: int)
    requires
        0 <= i <= s.len(),
    ensures
        i <= path_index(s, leaf, name, i) <= s.len(),
        path_index(s, leaf, name, i) < s.len() ==> full_path(
            s,
            s[path_index(s, leaf, name, i)],
            s.len() as int,
        ) == Some(name),
        forall|j: int|
            i <= j < path_index(s, leaf, name, i) ==> !((#[trigger] s[j]).name == leaf && full_path(
                s,
                s[j],
                s.len() as int,
            ) == Some(name)),
    decreases s.len() - i,
{
    if i < s.len() && !(s[i].name == leaf && full_path(s, s[i], s.len() as int) == Some(name)) {
        lemma_path_index(s, leaf, name, i + 1);
    }
}

/// A name stands for the first mailbox that is called so; where none is, for the first
/// whose role it names, whatever the case; where none has that role, for one whose path
/// it is, from the topmost mailbox down with slashes between. Whatever it stands for is
/// one of the mailboxes.
pub proof fn law_name_stands_for_a_mailbox(s: Seq<MailboxV>, name: Seq<char>, i: int)
    requires
        0 <= i < s.len(),
    ensures
        ({
            let called = exists|j: int| 0 <= j < s.len() && (#[trigger] s[j]).name == name;
            let roled = exists|j: int|
                0 <= j < s.len() && (#[trigger] s[j]).role is Some && lowercase(s[j].role->0)
                    == lowercase(name);
            let id = resolved_mailbox(name, s);
            &&& s[i].name == name && (forall|j: int| 0 <= j < i ==> (#[trigger] s[j]).name != name)
                ==> id == Some(s[i].id)
            &&& !called && s[i].role is Some && lowercase(s[i].role->0) == lowercase(name) && (
            forall|j: int|
                0 <= j < i ==> !((#[trigger] s[j]).role is Some && lowercase(s[j].role->0)
                    == lowercase(name))) ==> id == Some(s[i].id)
            &&& !called && !roled && id is Some ==> name.contains('/') && exists|j: int|
                0 <= j < s.len() && #[trigger] full_path(s, s[j], s.len() as int) == Some(name)
                    && id == Some(s[j].id)
            &&& !called && !roled && !name.contains('/') ==> id is None
            &&& id is Some ==> exists|j: int| 0 <= j < s.len() && (#[trigger] s[j]).id == id->0
        }),
{
    lemma_named_index(s, name, 0);
    lemma_role_index(s, lowercase(name), 0);
    lemma_path_index(s, pieces(name, '/').last(), name, 0);
    let n = named_index(s, name, 0);
    let r = role_index(s, lowercase(name), 0);
    let p = path_index(s, pieces(name, '/').last(), name, 0);
    if n < s.len() {
        assert(s[n].name == name);
    } else if r < s.len() {
        assert(s[r].role is Some);
    } else if p < s.len() {
        assert(full_path(s, s[p], s.len() as int) == Some(name));
    }
}

/// A mailbox without a parent has its name for a path; below another one its path is
/// that one's path, a slash and its name.
pub proof fn law_path_goes_down_from_the_top(s: Seq<MailboxV>, m: MailboxV, p: int, fuel: int)
    requires
        0 < fuel,
        0 <= p < s.len(),
        forall|j: int| 0 <= j < s.len() && j != p ==> (#[trigger] s[j]).id != s[p].id,
    ensures
        m.parent_id is None ==> full_path(s, m, fuel) == Some(m.name),
        m.parent_id == Some(s[p].id) && full_path(s, s[p], fuel - 1) is Some ==> full_path(
            s,
            m,
            fuel,
        ) == Some(full_path(s, s[p], fuel - 1)->0 + "/"@ + m.name),
{
    lemma_last_with_id(s, p, s.len() as int);
}

proof fn lemma_last_with_id(s: Seq<MailboxV>, p: int, n: int)
    requires
        0 <= p < n <= s.len(),
        forall|j: int| 0 <= j < s.len() && j != p ==> (#[trigger] s[j]).id != s[p].id,
    ensures
        last_with_id(s, s[p].id, n) == Some(p),
    decreases n,
{
    if n - 1 != p {
        assert(s[n - 1].id != s[p].id);
        lemma_last_with_id(s, p, n - 1);
    }
}

proof fn lemma_exact_role(s: Seq<MailboxV>, role: Seq<char>, i: int)
    requires
        0 <= i <= s.len(),
    ensures
        i <= exact_role_index(s, role, i) <= s.len(),
        exact_role_index(s, role, i) < s.len() ==> s[exact_role_index(s, role, i)].role == Some(
            role,
        ),
        forall|j: int| i <= j < exact_role_index(s, role, i) ==> (#[trigger] s[j]).role != Some(role),
    decreases s.len() - i,
{
    if i < s.len() && s[i].role != Some(role) {
        lemma_exact_role(s, role, i + 1);
    }
}

/// The id of the first mailbox whose role is the trash.
pub open spec fn is_trash(s: Seq<MailboxV>, id: Option<Seq<char>>) -> bool {
    match id {
        Some(x) => exists|i: int|
            0 <= i < s.len() && s[i].role == Some("trash"@) && #[trigger] s[i].id == x && (forall|
                j: int,
            |
                0 <= j < i ==> (#[trigger] s[j]).role != Some("trash"@)),
        None => forall|j: int| 0 <= j < s.len() ==> (#[trigger] s[j]).role != Some("trash"@),
    }
}

/// Each action on a message is carried out by the one change, and by the one request,
/// that does it to that message: a mark is set or taken away, a move goes to the mailbox
/// that its target stands for, and a deletion to the trash. Where that mailbox does not
/// exist, nothing is done.
pub proof fn law_actions_are_carried_out(
    s: Seq<MailboxV>,
    id: Seq<char>,
    op_id: u64,
    target: Seq<char>,
)
    ensures
        mutation_for(ActionV::MarkRead, id, s, op_id) == Some(
            QueuedMutationV::MarkRead { op_id, id },
        ),
        mutation_for(ActionV::MarkUnread, id, s, op_id) == Some(
            QueuedMutationV::MarkUnread { op_id, id },
        ),
        mutation_for(ActionV::Flag, id, s, op_id) == Some(
            QueuedMutationV::SetFlagged { op_id, id, flagged: true },
        ),
        mutation_for(ActionV::Unflag, id, s, op_id) == Some(
            QueuedMutationV::SetFlagged { op_id, id, flagged: false },
        ),
        mutation_for(ActionV::Move { target }, id, s, op_id) == match resolved_mailbox(target, s) {
            Some(to) => Some(QueuedMutationV::MoveEmail { op_id, id, to_mailbox_id: to }),
            None => None,
        },
        exists|trash: Option<Seq<char>>| #[trigger]
            is_trash(s, trash) && mutation_for(ActionV::Delete, id, s, op_id) == match trash {
                Some(to) => Some(QueuedMutationV::MoveEmail { op_id, id, to_mailbox_id: to }),
                None => None,
            },
        step_for(ActionV::MarkRead, id, s) == Some(MailboxStepV::MarkRead { id }),
        step_for(ActionV::MarkUnread, id, s) == Some(MailboxStepV::MarkUnread { id }),
        step_for(ActionV::Flag, id, s) == Some(MailboxStepV::SetFlagged { id, flagged: true }),
        step_for(ActionV::Unflag, id, s) == Some(MailboxStepV::SetFlagged { id, flagged: false }),
        step_for(ActionV::Move { target }, id, s) == match resolved_mailbox(target, s) {
            Some(to) => Some(MailboxStepV::Move { id, to }),
            None => None,
        },
        exists|trash: Option<Seq<char>>| #[trigger]
            is_trash(s, trash) && step_for(ActionV::Delete, id, s) == match trash {
                Some(to) => Some(MailboxStepV::Move { id, to }),
                None => None,
            },
{
    lemma_exact_role(s, "trash"@, 0);
    let trash = mailbox_with_role(s, "trash"@);
    let i = exact_role_index(s, "trash"@, 0);
    if i < s.len() {
        assert(s[i].id == trash->0);
    }
    assert(is_trash(s, trash));
}

/// The changes for what the rules ask are those of each action of each application, in
/// order, on the message that the application names.
pub proof fn law_every_asked_action_is_queued(
    apps: Seq<RuleApplicationV>,
    app: RuleApplicationV,
    action: ActionV,
    s: Seq<MailboxV>,
    op_id: u64,
)
    ensures
        ({
            let n = apps.len() as int;
            let (before, next) = rule_mutations_upto(apps, s, op_id, n);
            let (after, _) = rule_mutations_upto(apps.push(app), s, op_id, n + 1);
            let longer = RuleApplicationV { actions: app.actions.push(action), ..app };
            let (more, _) = rule_mutations_upto(apps.push(longer), s, op_id, n + 1);
            let number = id_after(next, app.actions.len() as int);
            &&& before.is_prefix_of(after)
            &&& app.actions.len() == 0 ==> after == before
            &&& more == match mutation_for(action, app.email_id, s, number) {
                Some(op) => after.push(op),
                None => after,
            }
        }),
        rule_mutations_upto(Seq::empty(), s, op_id, 0).0.len() == 0,
{
    let n = apps.len() as int;
    let longer = RuleApplicationV { actions: app.actions.push(action), ..app };
    lemma_rule_mutations_prefix(apps, apps.push(app), s, op_id, n);
    lemma_rule_mutations_prefix(apps, apps.push(longer), s, op_id, n);
    let (before, next) = rule_mutations_upto(apps, s, op_id, n);
    let k = app.actions.len() as int;
    let own = mutations_for_upto(app.actions, app.email_id, s, next, k);
    lemma_mutations_prefix(app.actions, longer.actions, app.email_id, s, next, k);
    let (after, _) = rule_mutations_upto(apps.push(app), s, op_id, n + 1);
    assert(apps.push(app)[n] == app);
    assert(apps.push(longer)[n] == longer);
    assert(after == before + own);
    assert(before.is_prefix_of(after)) by {
        assert(after.subrange(0, before.len() as int) =~= before);
    }
    if k == 0 {
        assert(after =~= before);
    }
    match mutation_for(action, app.email_id, s, id_after(next, k)) {
        Some(op) => {
            assert(before + own.push(op) =~= (before + own).push(op));
        },
        None => {},
    }
}

proof fn lemma_rule_mutations_prefix(
    apps: Seq<RuleApplicationV>,
    more: Seq<RuleApplicationV>,
    s: Seq<MailboxV>,
    op_id: u64,
    k: int,
)
    requires
        0 <= k <= apps.len() <= more.len(),
        forall|i: int| 0 <= i < apps.len() ==> #[trigger] more[i] == apps[i],
    ensures
        rule_mutations_upto(more, s, op_id, k) == rule_mutations_upto(apps, s, op_id, k),
    decreases k,
{
    if k > 0 {
        lemma_rule_mutations_prefix(apps, more, s, op_id, k - 1);
        assert(more[k - 1] == apps[k - 1]);
    }
}

proof fn lemma_mutations_prefix(
    actions: Seq<ActionV>,
    more: Seq<ActionV>,
    id: Seq<char>,
    s: Seq<MailboxV>,
    op_id: u64,
    k: int,
)
    requires
        0 <= k <= actions.len() <= more.len(),
        forall|i: int| 0 <= i < actions.len() ==> #[trigger] more[i] == actions[i],
    ensures
        mutations_for_upto(more, id, s, op_id, k) == mutations_for_upto(actions, id, s, op_id, k),
    decreases k,
{
    if k > 0 {
        lemma_mutations_prefix(actions, more, id, s, op_id, k - 1);
        assert(more[k - 1] == actions[k - 1]);
    }
}

// ---------------------------------------------------------------------------
// Suggestions
// ---------------------------------------------------------------------------

proof fn lemma_suggestion(rules: Seq<CompiledRuleV>, e: EmailV, me: Regex, j: int, i: int)
    requires
        0 <= j <= i <= rules.len(),
        forall|k: int|
            j <= k < i ==> !((#[trigger] rules[k]).triage_action is Some && fires(rules[k], e, me)),
        i < rules.len() ==> rules[i].triage_action is Some && fires(rules[i], e, me),
    ensures
        suggestion_from(rules, e, me, j) == (if i < rules.len() {
            (rules[i].triage_action->0, rules[i].name)
        } else {
            (TriageHintActionDef::Keep, "no rule"@)
        }),
    decreases rules.len() - j,
{
    if j < i {
        assert(!(rules[j].triage_action is Some && fires(rules[j], e, me)));
        lemma_suggestion(rules, e, me, j + 1, i);
    }
}

/// For a message the rules suggest what the first rule with a suggestion that fires does,
/// under that rule's name; where there is none, the message is to be kept.
pub proof fn law_first_suggestion_counts(
    rules: Seq<CompiledRuleV>,
    e: EmailV,
    me: Regex,
    i: int,
)
    requires
        0 <= i <= rules.len(),
        forall|k: int|
            0 <= k < i ==> !((#[trigger] rules[k]).triage_action is Some && fires(rules[k], e, me)),
        i < rules.len() ==> rules[i].triage_action is Some && fires(rules[i], e, me),
    ensures
        suggestion_from(rules, e, me, 0) == (if i < rules.len() {
            (rules[i].triage_action->0, rules[i].name)
        } else {
            (TriageHintActionDef::Keep, "no rule"@)
        }),
{
    lemma_suggestion(rules, e, me, 0, i);
}

// ---------------------------------------------------------------------------
// Headers that are fetched
// ---------------------------------------------------------------------------

/// Whether a condition looks at a header.
pub open spec fn looks_at(c: CompiledConditionV, h: Seq<char>) -> bool
    decreases c, 0int,
{
    match c {
        CompiledConditionV::Header { header, .. } => header == h,
        CompiledConditionV::All(v) => one_looks_at(v, h, v.len() as int),
        CompiledConditionV::Any(v) => one_looks_at(v, h, v.len() as int),
        CompiledConditionV::Not(inner) => looks_at(*inner, h),
    }
}

/// Whether one of the first `k` conditions looks at a header.
pub open spec fn one_looks_at(v: Seq<CompiledConditionV>, h: Seq<char>, k: int) -> bool
    decreases v, k,
{
    0 < k <= v.len() && (one_looks_at(v, h, k - 1) || looks_at(v[k - 1], h))
}

proof fn lemma_with_text(acc: Seq<Seq<char>>, s: Seq<char>, h: Seq<char>)
    ensures
        with_text(acc, s).contains(h) <==> acc.contains(h) || s == h,
{
    if !acc.contains(s) {
        lemma_add_contains(acc, seq![s], h);
        assert(acc.push(s) =~= acc + seq![s]);
        assert(seq![s][0] == s);
    }
}

proof fn lemma_headers_in(c: CompiledConditionV, acc: Seq<Seq<char>>, h: Seq<char>)
    ensures
        headers_in(c, acc).contains(h) <==> acc.contains(h) || looks_at(c, h),
    decreases c, 0int,
{
    match c {
        CompiledConditionV::Header { header, .. } => {
            lemma_with_text(acc, header, h);
        },
        CompiledConditionV::All(v) => {
            lemma_headers_in_upto(v, acc, h, v.len() as int);
        },
        CompiledConditionV::Any(v) => {
            lemma_headers_in_upto(v, acc, h, v.len() as int);
        },
        CompiledConditionV::Not(inner) => {
            lemma_headers_in(*inner, acc, h);
        },
    }
}

proof fn lemma_headers_in_upto(
    v: Seq<CompiledConditionV>,
    acc: Seq<Seq<char>>,
    h: Seq<char>,
    k: int,
)
    requires
        0 <= k <= v.len(),
    ensures
        headers_in_upto(v, acc, k).contains(h) <==> acc.contains(h) || one_looks_at(v, h, k),
    decreases v, k,
{
    if k > 0 {
        lemma_headers_in_upto(v, acc, h, k - 1);
        lemma_headers_in(v[k - 1], headers_in_upto(v, acc, k - 1), h);
    }
}

proof fn lemma_rule_headers(rules: Seq<CompiledRuleV>, k: int, h: Seq<char>)
    requires
        0 <= k <= rules.len(),
    ensures
        rule_headers_upto(rules, k).contains(h) <==> exists|i: int|
            0 <= i < k && looks_at((#[trigger] rules[i]).condition, h),
    decreases k,
{
    if k > 0 {
        lemma_rule_headers(rules, k - 1, h);
        lemma_headers_in(rules[k - 1].condition, rule_headers_upto(rules, k - 1), h);
        if looks_at(rules[k - 1].condition, h) {
            assert(looks_at(rules[k - 1].condition, h));
        }
    } else {
        assert(!Seq::<Seq<char>>::empty().contains(h));
    }
}

proof fn lemma_custom(headers: Seq<Seq<char>>, k: int, h: Seq<char>)
    requires
        0 <= k <= headers.len(),
    ensures
        headers.take(k).contains(h) && !standard_header(h) ==> custom_upto(headers, k).contains(
            "header:"@ + h + ":asText"@,
        ),
    decreases k,
{
    if k > 0 {
        lemma_custom(headers, k - 1, h);
        assert(headers.take(k) =~= headers.take(k - 1) + seq![headers[k - 1]]);
        lemma_add_contains(headers.take(k - 1), seq![headers[k - 1]], h);
        assert(seq![headers[k - 1]].contains(h) ==> headers[k - 1] == h);
        let before = custom_upto(headers, k - 1);
        let last = "header:"@ + headers[k - 1] + ":asText"@;
        let p = "header:"@ + h + ":asText"@;
        assert(before.push(last) =~= before + seq![last]);
        lemma_add_contains(before, seq![last], p);
        assert(seq![last][0] == last);
    } else {
        assert(!headers.take(0).contains(h));
    }
}

/// Every header that some rule looks at is fetched: it is one of those that every message
/// is fetched with, or the messages are fetched with the property that a condition on it
/// reads.
pub proof fn law_headers_of_rules_are_fetched(rules: Seq<CompiledRuleV>, i: int, h: Seq<char>)
    requires
        0 <= i < rules.len(),
        looks_at(rules[i].condition, h),
    ensures
        ({
            let low = lowercase(h);
            let headers = rule_headers_upto(rules, rules.len() as int);
            ||| low == "from"@ || low == "to"@ || low == "cc"@ || low == "reply-to"@ || low
                == "subject"@ || low == "message-id"@
            ||| custom_upto(headers, headers.len() as int).contains("header:"@ + h + ":asText"@)
        }),
{
    let headers = rule_headers_upto(rules, rules.len() as int);
    lemma_rule_headers(rules, rules.len() as int, h);
    assert(headers.take(headers.len() as int) =~= headers);
    lemma_custom(headers, headers.len() as int, h);
}

// ---------------------------------------------------------------------------
// Requests and trials
// ---------------------------------------------------------------------------

proof fn lemma_steps_prefix(
    actions: Seq<ActionV>,
    more: Seq<ActionV>,
    id: Seq<char>,
    s: Seq<MailboxV>,
    k: int,
)
    requires
        0 <= k <= actions.len() <= more.len(),
        forall|i: int| 0 <= i < actions.len() ==> #[trigger] more[i] == actions[i],
    ensures
        steps_for_upto(more, id, s, k) == steps_for_upto(actions, id, s, k),
    decreases k,
{
    if k > 0 {
        lemma_steps_prefix(actions, more, id, s, k - 1);
        assert(more[k - 1] == actions[k - 1]);
    }
}

proof fn lemma_all_steps_prefix(
    apps: Seq<RuleApplicationV>,
    more: Seq<RuleApplicationV>,
    s: Seq<MailboxV>,
    k: int,
)
    requires
        0 <= k <= apps.len() <= more.len(),
        forall|i: int| 0 <= i < apps.len() ==> #[trigger] more[i] == apps[i],
    ensures
        steps_upto(more, s, k) == steps_upto(apps, s, k),
    decreases k,
{
    if k > 0 {
        lemma_all_steps_prefix(apps, more, s, k - 1);
        assert(more[k - 1] == apps[k - 1]);
    }
}

/// The requests for what the rules ask are those of each action of each application, in
/// order, on the message that the application names.
pub proof fn law_every_asked_action_is_requested(
    apps: Seq<RuleApplicationV>,
    app: RuleApplicationV,
    action: ActionV,
    s: Seq<MailboxV>,
)
    ensures
        ({
            let n = apps.len() as int;
            let before = steps_upto(apps, s, n);
            let after = steps_upto(apps.push(app), s, n + 1);
            let longer = RuleApplicationV { actions: app.actions.push(action), ..app };
            let more = steps_upto(apps.push(longer), s, n + 1);
            &&& app.actions.len() == 0 ==> after == before
            &&& more == match step_for(action, app.email_id, s) {
                Some(step) => after.push(step),
                None => after,
            }
        }),
        steps_upto(Seq::empty(), s, 0).len() == 0,
{
    let n = apps.len() as int;
    let longer = RuleApplicationV { actions: app.actions.push(action), ..app };
    lemma_all_steps_prefix(apps, apps.push(app), s, n);
    lemma_all_steps_prefix(apps, apps.push(longer), s, n);
    let before = steps_upto(apps, s, n);
    let k = app.actions.len() as int;
    let own = steps_for_upto(app.actions, app.email_id, s, k);
    lemma_steps_prefix(app.actions, longer.actions, app.email_id, s, k);
    assert(apps.push(app)[n] == app);
    assert(apps.push(longer)[n] == longer);
    if k == 0 {
        assert(before + own =~= before);
    }
    match step_for(action, app.email_id, s) {
        Some(step) => {
            assert(before + own.push(step) =~= (before + own).push(step));
        },
        None => {},
    }
}

/// A trial of the rules has an entry for each application to a message that was looked
/// at: the message's day, first sender and subject, the rule's name and the actions, each
/// as it is written; it counts the messages, the applications and their actions.
pub proof fn law_trial_tells_what_would_be_done(
    apps: Seq<RuleApplicationV>,
    app: RuleApplicationV,
    emails: Seq<EmailV>,
    e: EmailV,
    target: Seq<char>,
)
    requires
        crate::laws::listing::known(emails, app.email_id) == Some(e),
    ensures
        ({
            let n = apps.len() as int;
            let before = dry_run_upto(apps, emails, n);
            let after = dry_run_upto(apps.push(app), emails, n + 1);
            let entry = after.last();
            &&& after.len() == before.len() + 1 && after.drop_last() == before
            &&& entry.rule_name == app.rule_name
            &&& e.subject is Some ==> entry.subject == e.subject->0
            &&& e.from is Some && e.from->0.len() > 0 ==> entry.from == shown_address(e.from->0[0])
            &&& e.received_at is Some && e.received_at->0.len() >= 10 ==> entry.received_at
                == e.received_at->0.take(10)
            &&& entry.actions.len() == app.actions.len()
            &&& forall|i: int|
                0 <= i < app.actions.len() ==> {
                    let shown = #[trigger] entry.actions[i];
                    match app.actions[i] {
                        ActionV::MarkRead => shown == "mark_read"@,
                        ActionV::MarkUnread => shown == "mark_unread"@,
                        ActionV::Flag => shown == "flag"@,
                        ActionV::Unflag => shown == "unflag"@,
                        ActionV::Move { target } => shown == "move_to="@ + target,
                        ActionV::Delete => shown == "delete"@,
                    }
                }
        }),
{
    let n = apps.len() as int;
    lemma_trial_prefix(apps, apps.push(app), emails, n);
    assert(apps.push(app)[n] == app);
    let before = dry_run_upto(apps, emails, n);
    let after = dry_run_upto(apps.push(app), emails, n + 1);
    assert(after.drop_last() =~= before);
    if e.received_at is Some && e.received_at->0.len() >= 10 {
        let d = e.received_at->0;
        assert(d.subrange(0, 10) =~= d.take(10));
        if d.len() == 10 {
            assert(d.take(10) =~= d);
        }
    }
}

proof fn lemma_trial_prefix(
    apps: Seq<RuleApplicationV>,
    more: Seq<RuleApplicationV>,
    emails: Seq<EmailV>,
    k: int,
)
    requires
        0 <= k <= apps.len() <= more.len(),
        forall|i: int| 0 <= i < apps.len() ==> #[trigger] more[i] == apps[i],
    ensures
        dry_run_upto(more, emails, k) == dry_run_upto(apps, emails, k),
    decreases k,
{
    if k > 0 {
        lemma_trial_prefix(apps, more, emails, k - 1);
        assert(more[k - 1] == apps[k - 1]);
    }
}

// ---------------------------------------------------------------------------
// Messages that the rules have seen
// ---------------------------------------------------------------------------

proof fn lemma_unprocessed(table: Seq<(Seq<char>, bool)>, ids: Seq<Seq<char>>, k: int)
    requires
        0 <= k <= ids.len(),
    ensures
        unprocessed_upto(table, ids, k) == ids.take(k).filter(
            |id: Seq<char>| lookup(table, id) is None,
        ),
    decreases k,
{
    reveal(Seq::filter);
    if k > 0 {
        lemma_unprocessed(table, ids, k - 1);
        assert(ids.take(k).drop_last() =~= ids.take(k - 1));
        assert(ids.take(k).last() == ids[k - 1]);
    } else {
        assert(ids.take(0) =~= Seq::empty());
    }
}

/// The rules look at those messages that they have not seen, all of them and in order.
pub proof fn law_rules_see_each_message_once(table: Seq<(Seq<char>, bool)>, ids: Seq<Seq<char>>)
    ensures
        unprocessed_upto(table, ids, ids.len() as int) == ids.filter(
            |id: Seq<char>| lookup(table, id) is None,
        ),
{
    lemma_unprocessed(table, ids, ids.len() as int);
    assert(ids.take(ids.len() as int) =~= ids);
}

/// The compiled rules are the rules that were written, one for one and in order.
pub proof fn law_rules_are_compiled_in_order(defs: Seq<RuleDefV>, k: int, i: int)
    requires
        0 <= i < k <= defs.len(),
        compiled_rules_upto(defs, k) is Ok,
    ensures
        compiled_rules_upto(defs, k)->Ok_0.len() == k,
        Ok::<CompiledRuleV, Seq<char>>(compiled_rules_upto(defs, k)->Ok_0[i]) == compiled_rule(
            defs[i],
        ),
    decreases k,
{
    if k > 1 && i < k - 1 {
        law_rules_are_compiled_in_order(defs, k - 1, i);
    } else if k > 1 {
        law_rules_are_compiled_in_order(defs, k - 1, k - 2);
    } else {
        assert(compiled_rules_upto(defs, 0) == Ok::<Seq<CompiledRuleV>, Seq<char>>(Seq::empty()));
    }
}

} // verus!
