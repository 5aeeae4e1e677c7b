//! Rules: conditions on messages, and the actions that follow when they hold.

use vstd::prelude::*;
use regex::Regex;

use crate::data::{at, lookup, no_items, put, put_all, Dup};
use crate::jmap::types::{
    shown_address, Email, EmailAddress, EmailAddressV, EmailV, Mailbox, MailboxV,
};
use crate::json::{Json, JsonV};
use crate::pattern::{compile_regex, regex_found, regex_of, regex_source};
use crate::text::{
    dec, decimal, join, joined, lemma_pieces_many, list_contains, lowercase, pieces, same, split,
    to_lowercase,
};

verus! {

broadcast use vstd::seq_lib::group_seq_properties;

/// What a rule suggests for a message in triage.
#[derive(Debug, Clone, Copy, PartialEq, Eq, Structural)]
pub enum TriageHintActionDef {
    Archive,
    Trash,
    Keep,
}

impl DeepView for TriageHintActionDef {
    type V = TriageHintActionDef;

    open spec fn deep_view(&self) -> TriageHintActionDef {
        *self
    }
}

impl Dup for TriageHintActionDef {
    fn dup(&self) -> (r: TriageHintActionDef) {
        *self
    }
}

/// A suggestion for triage. The confidence is the bit pattern of a 32-bit
/// float.
#[derive(Debug)]
pub struct TriageHintDef {
    pub action: TriageHintActionDef,
    pub confidence: Option<u32>,
}

/// The contents of a `TriageHintDef`.
pub struct TriageHintDefV {
    pub action: TriageHintActionDef,
    pub confidence: Option<u32>,
}

impl DeepView for TriageHintDef {
    type V = TriageHintDefV;

    open spec fn deep_view(&self) -> TriageHintDefV {
        TriageHintDefV {
            action: self.action,
            confidence: self.confidence.deep_view(),
        }
    }
}

/// A condition as it is written.
#[derive(Debug)]
pub enum ConditionDef {
    Header { header: String, regex: String },
    All { all: Vec<ConditionDef> },
    Any { any: Vec<ConditionDef> },
    Not { not: Box<ConditionDef> },
}

/// The contents of a `ConditionDef`.
pub enum ConditionDefV {
    Header { header: Seq<char>, regex: Seq<char> },
    All { all: Seq<ConditionDefV> },
    Any { any: Seq<ConditionDefV> },
    Not { not: Box<ConditionDefV> },
}

/// The contents of a condition as it is written.
pub open spec fn def_view(c: ConditionDef) -> ConditionDefV
    decreases c,
{
    match c {
        ConditionDef::Header { header, regex } => ConditionDefV::Header {
            header: header@,
            regex: regex@,
        },
        ConditionDef::All { all } => ConditionDefV::All { all: defs_view(all) },
        ConditionDef::Any { any } => ConditionDefV::Any { any: defs_view(any) },
        ConditionDef::Not { not } => ConditionDefV::Not { not: Box::new(def_view(*not)) },
    }
}

/// The contents of conditions as they are written.
pub open spec fn defs_view(v: Vec<ConditionDef>) -> Seq<ConditionDefV>
    decreases v,
{
    Seq::new(
        v@.len(),
        |i: int|
            if 0 <= i < v@.len() {
                def_view(v@[i])
            } else {
                arbitrary()
            },
    )
}

impl DeepView for ConditionDef {
    type V = ConditionDefV;

    open spec fn deep_view(&self) -> ConditionDefV {
        def_view(*self)
    }
}

/// A condition that is ready to be evaluated.
#[derive(Debug)]
pub enum CompiledCondition {
    Header { header: String, regex: Regex },
    All(Vec<CompiledCondition>),
    Any(Vec<CompiledCondition>),
    Not(Box<CompiledCondition>),
}

/// The contents of a `CompiledCondition`.
pub enum CompiledConditionV {
    Header { header: Seq<char>, regex: Regex },
    All(Seq<CompiledConditionV>),
    Any(Seq<CompiledConditionV>),
    Not(Box<CompiledConditionV>),
}

/// The contents of a condition.
pub open spec fn condition_view(c: CompiledCondition) -> CompiledConditionV
    decreases c,
{
    match c {
        CompiledCondition::Header { header, regex } => CompiledConditionV::Header {
            header: header@,
            regex,
        },
        CompiledCondition::All(v) => CompiledConditionV::All(conditions_view(v)),
        CompiledCondition::Any(v) => CompiledConditionV::Any(conditions_view(v)),
        CompiledCondition::Not(inner) => CompiledConditionV::Not(Box::new(condition_view(*inner))),
    }
}

/// The contents of conditions.
pub open spec fn conditions_view(v: Vec<CompiledCondition>) -> Seq<CompiledConditionV>
    decreases v,
{
    Seq::new(
        v@.len(),
        |i: int|
            if 0 <= i < v@.len() {
                condition_view(v@[i])
            } else {
                arbitrary()
            },
    )
}

impl DeepView for CompiledCondition {
    type V = CompiledConditionV;

    open spec fn deep_view(&self) -> CompiledConditionV {
        condition_view(*self)
    }
}

/// The actions of a rule as they are written.
#[derive(Debug)]
pub struct ActionsDef {
    pub mark_read: Option<bool>,
    pub mark_unread: Option<bool>,
    pub flag: Option<bool>,
    pub unflag: Option<bool>,
    pub move_to: Option<String>,
    pub delete: Option<bool>,
}

/// The contents of an `ActionsDef`.
pub struct ActionsDefV {
    pub mark_read: Option<bool>,
    pub mark_unread: Option<bool>,
    pub flag: Option<bool>,
    pub unflag: Option<bool>,
    pub move_to: Option<Seq<char>>,
    pub delete: Option<bool>,
}

impl DeepView for ActionsDef {
    type V = ActionsDefV;

    open spec fn deep_view(&self) -> ActionsDefV {
        ActionsDefV {
            mark_read: self.mark_read.deep_view(),
            mark_unread: self.mark_unread.deep_view(),
            flag: self.flag.deep_view(),
            unflag: self.unflag.deep_view(),
            move_to: self.move_to.deep_view(),
            delete: self.delete.deep_view(),
        }
    }
}

/// A rule as it is written.
#[derive(Debug)]
pub struct RuleDef {
    pub name: String,
    pub continue_processing: Option<bool>,
    pub skip_if_to_me: Option<bool>,
    pub match_condition: ConditionDef,
    pub actions: ActionsDef,
    pub triage: Option<TriageHintDef>,
}

/// The contents of a `RuleDef`.
pub struct RuleDefV {
    pub name: Seq<char>,
    pub continue_processing: Option<bool>,
    pub skip_if_to_me: Option<bool>,
    pub match_condition: ConditionDefV,
    pub actions: ActionsDefV,
    pub triage: Option<TriageHintDefV>,
}

impl DeepView for RuleDef {
    type V = RuleDefV;

    open spec fn deep_view(&self) -> RuleDefV {
        RuleDefV {
            name: self.name@,
            continue_processing: self.continue_processing.deep_view(),
            skip_if_to_me: self.skip_if_to_me.deep_view(),
            match_condition: self.match_condition.deep_view(),
            actions: self.actions.deep_view(),
            triage: self.triage.deep_view(),
        }
    }
}

/// What is done to a message.
#[derive(Debug)]
pub enum Action {
    MarkRead,
    MarkUnread,
    Flag,
    Unflag,
    Move { target: String },
    Delete,
}

/// The contents of an `Action`.
pub enum ActionV {
    MarkRead,
    MarkUnread,
    Flag,
    Unflag,
    Move { target: Seq<char> },
    Delete,
}

impl DeepView for Action {
    type V = ActionV;

    open spec fn deep_view(&self) -> ActionV {
        match self {
            Action::MarkRead => ActionV::MarkRead,
            Action::MarkUnread => ActionV::MarkUnread,
            Action::Flag => ActionV::Flag,
            Action::Unflag => ActionV::Unflag,
            Action::Move { target } => ActionV::Move {
                target: target@,
            },
            Action::Delete => ActionV::Delete,
        }
    }
}

impl Dup for Action {
    fn dup(&self) -> (r: Action) {
        match self {
            Action::MarkRead => Action::MarkRead,
            Action::MarkUnread => Action::MarkUnread,
            Action::Flag => Action::Flag,
            Action::Unflag => Action::Unflag,
            Action::Move { target } => Action::Move {
                target: target.dup(),
            },
            Action::Delete => Action::Delete,
        }
    }
}

/// A rule that is ready to be applied.
#[derive(Debug)]
pub struct CompiledRule {
    pub name: String,
    pub continue_processing: bool,
    pub skip_if_to_me: bool,
    pub actions: Vec<Action>,
    pub condition: CompiledCondition,
    pub triage_action: Option<TriageHintActionDef>,
    pub triage_confidence: Option<u32>,
}

/// The contents of a `CompiledRule`.
pub struct CompiledRuleV {
    pub name: Seq<char>,
    pub continue_processing: bool,
    pub skip_if_to_me: bool,
    pub actions: Seq<ActionV>,
    pub condition: CompiledConditionV,
    pub triage_action: Option<TriageHintActionDef>,
    pub triage_confidence: Option<u32>,
}

impl DeepView for CompiledRule {
    type V = CompiledRuleV;

    open spec fn deep_view(&self) -> CompiledRuleV {
        CompiledRuleV {
            name: self.name@,
            continue_processing: self.continue_processing,
            skip_if_to_me: self.skip_if_to_me,
            actions: self.actions.deep_view(),
            condition: self.condition.deep_view(),
            triage_action: self.triage_action.deep_view(),
            triage_confidence: self.triage_confidence.deep_view(),
        }
    }
}

/// The actions that a rule asks for on a message.
#[derive(Debug)]
pub struct RuleApplication {
    pub email_id: String,
    pub rule_name: String,
    pub actions: Vec<Action>,
}

/// The contents of a `RuleApplication`.
pub struct RuleApplicationV {
    pub email_id: Seq<char>,
    pub rule_name: Seq<char>,
    pub actions: Seq<ActionV>,
}

impl DeepView for RuleApplication {
    type V = RuleApplicationV;

    open spec fn deep_view(&self) -> RuleApplicationV {
        RuleApplicationV {
            email_id: self.email_id@,
            rule_name: self.rule_name@,
            actions: self.actions.deep_view(),
        }
    }
}

impl Dup for RuleApplication {
    fn dup(&self) -> (r: RuleApplication) {
        RuleApplication {
            email_id: self.email_id.dup(),
            rule_name: self.rule_name.dup(),
            actions: self.actions.dup(),
        }
    }
}

/// A request that carries out an action on the server.
#[derive(Debug)]
pub enum MailboxStep {
    MarkRead { id: String },
    MarkUnread { id: String },
    SetFlagged { id: String, flagged: bool },
    Move { id: String, to: String },
}

/// The contents of a `MailboxStep`.
pub enum MailboxStepV {
    MarkRead { id: Seq<char> },
    MarkUnread { id: Seq<char> },
    SetFlagged { id: Seq<char>, flagged: bool },
    Move { id: Seq<char>, to: Seq<char> },
}

impl DeepView for MailboxStep {
    type V = MailboxStepV;

    open spec fn deep_view(&self) -> MailboxStepV {
        match self {
            MailboxStep::MarkRead { id } => MailboxStepV::MarkRead {
                id: id@,
            },
            MailboxStep::MarkUnread { id } => MailboxStepV::MarkUnread {
                id: id@,
            },
            MailboxStep::SetFlagged { id, flagged } => MailboxStepV::SetFlagged {
                id: id@,
                flagged: *flagged,
            },
            MailboxStep::Move { id, to } => MailboxStepV::Move {
                id: id@,
                to: to@,
            },
        }
    }
}

// ---------------------------------------------------------------------------
// Compilation
// ---------------------------------------------------------------------------

/// The actions that are switched on, in the order in which they are carried out.
pub open spec fn actions_of(def: ActionsDefV) -> Seq<ActionV> {
    let none = Seq::<ActionV>::empty();
    (if def.mark_read == Some(true) {
        seq![ActionV::MarkRead]
    } else {
        none
    }) + (if def.mark_unread == Some(true) {
        seq![ActionV::MarkUnread]
    } else {
        none
    }) + (if def.flag == Some(true) {
        seq![ActionV::Flag]
    } else {
        none
    }) + (if def.unflag == Some(true) {
        seq![ActionV::Unflag]
    } else {
        none
    }) + (match def.move_to {
        Some(target) => seq![ActionV::Move { target }],
        None => none,
    }) + (if def.delete == Some(true) {
        seq![ActionV::Delete]
    } else {
        none
    })
}

fn switched_on(o: &Option<bool>) -> (r: bool)
    ensures
        r == (*o == Some(true)),
{
    match o {
        Some(b) => *b,
        None => false,
    }
}

/// The actions that are switched on, in the order in which they are carried out.
pub fn compile_actions(def: &ActionsDef) -> (r: Vec<Action>)
    ensures
        r.deep_view() == actions_of(def.deep_view()),
{
    let mut actions: Vec<Action> = no_items();
    if switched_on(&def.mark_read) {
        put(&mut actions, Action::MarkRead);
    }
    if switched_on(&def.mark_unread) {
        put(&mut actions, Action::MarkUnread);
    }
    if switched_on(&def.flag) {
        put(&mut actions, Action::Flag);
    }
    if switched_on(&def.unflag) {
        put(&mut actions, Action::Unflag);
    }
    match &def.move_to {
        Some(target) => {
            put(&mut actions, Action::Move { target: target.clone() });
        },
        None => {},
    }
    if switched_on(&def.delete) {
        put(&mut actions, Action::Delete);
    }
    assert(actions.deep_view() =~= actions_of(def.deep_view()));
    actions
}

/// What a written condition compiles to, or the message about its first pattern
/// that does not compile.
pub open spec fn compiled(def: ConditionDefV) -> Result<CompiledConditionV, Seq<char>>
    decreases def, 0int,
{
    match def {
        ConditionDefV::Header { header, regex } => match regex_of(regex) {
            Ok(re) => Ok(CompiledConditionV::Header { header, regex: re }),
            Err(e) => Err("Invalid regex '"@ + regex + "': "@ + e),
        },
        ConditionDefV::All { all } => match compiled_upto(all, all.len() as int) {
            Ok(v) => Ok(CompiledConditionV::All(v)),
            Err(e) => Err(e),
        },
        ConditionDefV::Any { any } => match compiled_upto(any, any.len() as int) {
            Ok(v) => Ok(CompiledConditionV::Any(v)),
            Err(e) => Err(e),
        },
        ConditionDefV::Not { not } => match compiled(*not) {
            Ok(c) => Ok(CompiledConditionV::Not(Box::new(c))),
            Err(e) => Err(e),
        },
    }
}

/// What the first `k` written conditions compile to.
pub open spec fn compiled_upto(defs: Seq<ConditionDefV>, k: int) -> Result<
    Seq<CompiledConditionV>,
    Seq<char>,
>
    decreases defs, k,
{
    if k <= 0 || k > defs.len() {
        Ok(Seq::empty())
    } else {
        match compiled_upto(defs, k - 1) {
            Ok(v) => match compiled(defs[k - 1]) {
                Ok(c) => Ok(v.push(c)),
                Err(e) => Err(e),
            },
            Err(e) => Err(e),
        }
    }
}

proof fn lemma_compiled_err(defs: Seq<ConditionDefV>, i: int, k: int, e: Seq<char>)
    requires
        0 <= i <= k <= defs.len(),
        compiled_upto(defs, i) == Err::<Seq<CompiledConditionV>, Seq<char>>(e),
    ensures
        compiled_upto(defs, k) == Err::<Seq<CompiledConditionV>, Seq<char>>(e),
    decreases k - i,
{
    if i < k {
        lemma_compiled_err(defs, i, k - 1, e);
    }
}

fn compile_list(defs: &Vec<ConditionDef>) -> (r: Result<Vec<CompiledCondition>, String>)
    ensures
        match r {
            Ok(v) => compiled_upto(defs_view(*defs), defs@.len() as int) == Ok::<
                Seq<CompiledConditionV>,
                Seq<char>,
            >(conditions_view(v)),
            Err(e) => compiled_upto(defs_view(*defs), defs@.len() as int) == Err::<
                Seq<CompiledConditionV>,
                Seq<char>,
            >(e@),
        },
    decreases defs,
{
    let ghost dv = defs_view(*defs);
    let mut out: Vec<CompiledCondition> = Vec::new();
    let mut i: usize = 0;
    assert(conditions_view(out) =~= Seq::empty());
    while i < defs.len()
        invariant
            i <= defs@.len(),
            dv == defs_view(*defs),
            compiled_upto(dv, i as int) == Ok::<Seq<CompiledConditionV>, Seq<char>>(
                conditions_view(out),
            ),
        decreases defs@.len() - i,
    {
        assert(decreases_to!(*defs => defs[i as int]));
        assert(dv[i as int] == def_view(defs@[i as int]));
        match compile_borrowed(&defs[i]) {
            Ok(c) => {
                let ghost before = conditions_view(out);
                out.push(c);
                assert(conditions_view(out) =~= before.push(condition_view(c)));
            },
            Err(e) => {
                proof {
                    lemma_compiled_err(dv, i + 1, defs@.len() as int, e@);
                }
                return Err(e);
            },
        }
        i = i + 1;
    }
    Ok(out)
}

fn compile_borrowed(def: &ConditionDef) -> (r: Result<CompiledCondition, String>)
    ensures
        match r {
            Ok(c) => compiled(def.deep_view()) == Ok::<CompiledConditionV, Seq<char>>(
                c.deep_view(),
            ),
            Err(e) => compiled(def.deep_view()) == Err::<CompiledConditionV, Seq<char>>(e@),
        },
    decreases def,
{
    match def {
        ConditionDef::Header { header, regex } => match compile_regex(regex.as_str()) {
            Ok(re) => Ok(CompiledCondition::Header { header: header.clone(), regex: re }),
            Err(e) => {
                let mut msg = "Invalid regex '".to_owned();
                msg.append(regex.as_str());
                msg.append("': ");
                msg.append(e.as_str());
                Err(msg)
            },
        },
        ConditionDef::All { all } => match compile_list(all) {
            Ok(v) => Ok(CompiledCondition::All(v)),
            Err(e) => Err(e),
        },
        ConditionDef::Any { any } => match compile_list(any) {
            Ok(v) => Ok(CompiledCondition::Any(v)),
            Err(e) => Err(e),
        },
        ConditionDef::Not { not } => match compile_borrowed(&**not) {
            Ok(c) => Ok(CompiledCondition::Not(Box::new(c))),
            Err(e) => Err(e),
        },
    }
}

/// What a written condition compiles to, or the message about its first pattern
/// that does not compile.
pub fn compile_condition(def: ConditionDef) -> (r: Result<CompiledCondition, String>)
    ensures
        match r {
            Ok(c) => compiled(def.deep_view()) == Ok::<CompiledConditionV, Seq<char>>(
                c.deep_view(),
            ),
            Err(e) => compiled(def.deep_view()) == Err::<CompiledConditionV, Seq<char>>(e@),
        },
{
    compile_borrowed(&def)
}

/// What a written rule compiles to.
pub open spec fn compiled_rule(def: RuleDefV) -> Result<CompiledRuleV, Seq<char>> {
    match compiled(def.match_condition) {
        Ok(condition) => Ok(
            CompiledRuleV {
                name: def.name,
                continue_processing: def.continue_processing == Some(true),
                skip_if_to_me: def.skip_if_to_me == Some(true),
                actions: actions_of(def.actions),
                condition,
                triage_action: match def.triage {
                    Some(t) => Some(t.action),
                    None => None,
                },
                triage_confidence: match def.triage {
                    Some(t) => t.confidence,
                    None => None,
                },
            },
        ),
        Err(e) => Err("Rule '"@ + def.name + "': "@ + e),
    }
}

/// What a written rule compiles to.
pub fn compile_rule(def: RuleDef) -> (r: Result<CompiledRule, String>)
    ensures
        match r {
            Ok(c) => compiled_rule(def.deep_view()) == Ok::<CompiledRuleV, Seq<char>>(
                c.deep_view(),
            ),
            Err(e) => compiled_rule(def.deep_view()) == Err::<CompiledRuleV, Seq<char>>(e@),
        },
{
    let actions = compile_actions(&def.actions);
    match compile_condition(def.match_condition) {
        Ok(condition) => {
            let (triage_action, triage_confidence) = match def.triage {
                Some(t) => (Some(t.action), t.confidence),
                None => (None, None),
            };
            Ok(
                CompiledRule {
                    name: def.name,
                    continue_processing: switched_on(&def.continue_processing),
                    skip_if_to_me: switched_on(&def.skip_if_to_me),
                    actions,
                    condition,
                    triage_action,
                    triage_confidence,
                },
            )
        },
        Err(e) => {
            let mut msg = "Rule '".to_owned();
            msg.append(def.name.as_str());
            msg.append("': ");
            msg.append(e.as_str());
            Err(msg)
        },
    }
}

/// What the first `k` written rules compile to; the first that does not compile
/// gives the error.
pub open spec fn compiled_rules_upto(defs: Seq<RuleDefV>, k: int) -> Result<
    Seq<CompiledRuleV>,
    Seq<char>,
>
    decreases k,
{
    if k <= 0 {
        Ok(Seq::empty())
    } else {
        match compiled_rules_upto(defs, k - 1) {
            Ok(v) => match compiled_rule(defs[k - 1]) {
                Ok(c) => Ok(v.push(c)),
                Err(e) => Err(e),
            },
            Err(e) => Err(e),
        }
    }
}

proof fn lemma_compiled_rules_err(defs: Seq<RuleDefV>, i: int, k: int, e: Seq<char>)
    requires
        0 <= i <= k,
        compiled_rules_upto(defs, i) == Err::<Seq<CompiledRuleV>, Seq<char>>(e),
    ensures
        compiled_rules_upto(defs, k) == Err::<Seq<CompiledRuleV>, Seq<char>>(e),
    decreases k - i,
{
    if i < k {
        lemma_compiled_rules_err(defs, i, k - 1, e);
    }
}

/// The rules of a rules file once its text has been read into definitions.
pub fn compile_rules(defs: Vec<RuleDef>) -> (r: Result<Vec<CompiledRule>, String>)
    ensures
        match r {
            Ok(v) => compiled_rules_upto(defs.deep_view(), defs@.len() as int) == Ok::<
                Seq<CompiledRuleV>,
                Seq<char>,
            >(v.deep_view()),
            Err(e) => compiled_rules_upto(defs.deep_view(), defs@.len() as int) == Err::<
                Seq<CompiledRuleV>,
                Seq<char>,
            >(e@),
        },
{
    let ghost dv = defs.deep_view();
    let ghost all = defs@;
    let mut out: Vec<CompiledRule> = no_items();
    for def in it: defs
        invariant
            it.seq() == all,
            all == defs@,
            dv == defs.deep_view(),
            compiled_rules_upto(dv, it.index() as int) == Ok::<Seq<CompiledRuleV>, Seq<char>>(
                out.deep_view(),
            ),
    {
        proof {
            assert(dv[it.index() as int] == def.deep_view());
        }
        match compile_rule(def) {
            Ok(c) => {
                put(&mut out, c);
            },
            Err(e) => {
                proof {
                    lemma_compiled_rules_err(dv, it.index() + 1, all.len() as int, e@);
                }
                return Err(e);
            },
        }
    }
    Ok(out)
}

// ---------------------------------------------------------------------------
// Display
// ---------------------------------------------------------------------------

/// How an action is shown.
pub open spec fn shown_action(a: ActionV) -> Seq<char> {
    match a {
        ActionV::MarkRead => "mark_read"@,
        ActionV::MarkUnread => "mark_unread"@,
        ActionV::Flag => "flag"@,
        ActionV::Unflag => "unflag"@,
        ActionV::Move { target } => "move_to="@ + target,
        ActionV::Delete => "delete"@,
    }
}

/// How an action is shown.
pub fn format_action_name(action: &Action) -> (r: String)
    ensures
        r@ == shown_action(action.deep_view()),
{
    match action {
        Action::MarkRead => "mark_read".to_owned(),
        Action::MarkUnread => "mark_unread".to_owned(),
        Action::Flag => "flag".to_owned(),
        Action::Unflag => "unflag".to_owned(),
        Action::Move { target } => {
            let mut s = "move_to=".to_owned();
            s.append(target.as_str());
            s
        },
        Action::Delete => "delete".to_owned(),
    }
}

/// How a list of actions is shown.
pub open spec fn shown_actions(actions: Seq<ActionV>) -> Seq<char> {
    if actions.len() == 0 {
        "(none)"@
    } else {
        joined(actions.map_values(|a: ActionV| shown_action(a)), ", "@)
    }
}

/// How a list of actions is shown.
pub fn format_actions_for_display(actions: &[Action]) -> (r: String)
    ensures
        r@ == shown_actions(actions.deep_view()),
{
    if actions.len() == 0 {
        return "(none)".to_owned();
    }
    let ghost av = actions.deep_view();
    let mut parts: Vec<String> = no_items();
    let mut i: usize = 0;
    while i < actions.len()
        invariant
            i <= actions@.len(),
            av == actions.deep_view(),
            parts.deep_view().len() == i,
            forall|j: int| 0 <= j < i ==> #[trigger] parts.deep_view()[j] == shown_action(av[j]),
        decreases actions@.len() - i,
    {
        put(&mut parts, format_action_name(at(actions, i)));
        i = i + 1;
    }
    assert(parts.deep_view() =~= av.map_values(|a: ActionV| shown_action(a)));
    join(&parts, ", ")
}

/// How a condition is shown.
pub open spec fn shown_condition(c: CompiledConditionV) -> Seq<char>
    decreases c, 0int,
{
    match c {
        CompiledConditionV::Header { header, regex } => header + " =~ /"@ + regex_source(regex)
            + "/"@,
        CompiledConditionV::All(v) => "all("@ + joined(
            shown_conditions_upto(v, v.len() as int),
            ", "@,
        ) + ")"@,
        CompiledConditionV::Any(v) => "any("@ + joined(
            shown_conditions_upto(v, v.len() as int),
            ", "@,
        ) + ")"@,
        CompiledConditionV::Not(inner) => "not("@ + shown_condition(*inner) + ")"@,
    }
}

/// How the first `k` conditions are shown.
pub open spec fn shown_conditions_upto(v: Seq<CompiledConditionV>, k: int) -> Seq<Seq<char>>
    decreases v, k,
{
    if k <= 0 || k > v.len() {
        Seq::empty()
    } else {
        shown_conditions_upto(v, k - 1).push(shown_condition(v[k - 1]))
    }
}

fn format_conditions(v: &Vec<CompiledCondition>) -> (r: Vec<String>)
    ensures
        r.deep_view() == shown_conditions_upto(conditions_view(*v), v@.len() as int),
    decreases v,
{
    let mut parts: Vec<String> = no_items();
    let mut i: usize = 0;
    while i < v.len()
        invariant
            i <= v@.len(),
            parts.deep_view() == shown_conditions_upto(conditions_view(*v), i as int),
        decreases v@.len() - i,
    {
        assert(decreases_to!(*v => v[i as int]));
        assert(conditions_view(*v)[i as int] == condition_view(v@[i as int]));
        put(&mut parts, format_condition_for_display(&v[i]));
        i = i + 1;
    }
    parts
}

/// How a condition is shown.
pub fn format_condition_for_display(condition: &CompiledCondition) -> (r: String)
    ensures
        r@ == shown_condition(condition.deep_view()),
    decreases condition,
{
    match condition {
        CompiledCondition::Header { header, regex } => {
            let mut s = header.clone();
            s.append(" =~ /");
            s.append(regex.as_str());
            s.append("/");
            s
        },
        CompiledCondition::All(v) => {
            let parts = format_conditions(v);
            let mut s = "all(".to_owned();
            s.append(join(&parts, ", ").as_str());
            s.append(")");
            s
        },
        CompiledCondition::Any(v) => {
            let parts = format_conditions(v);
            let mut s = "any(".to_owned();
            s.append(join(&parts, ", ").as_str());
            s.append(")");
            s
        },
        CompiledCondition::Not(inner) => {
            let mut s = "not(".to_owned();
            s.append(format_condition_for_display(&**inner).as_str());
            s.append(")");
            s
        },
    }
}

/// How a choice is shown.
pub open spec fn yes_no(b: bool) -> Seq<char> {
    if b {
        "yes"@
    } else {
        "no"@
    }
}

fn show_bool(b: bool) -> (r: &'static str)
    ensures
        r@ == yes_no(b),
{
    if b {
        "yes"
    } else {
        "no"
    }
}

/// How the rule at position `n` is shown.
pub open spec fn shown_rule(rule: CompiledRuleV, n: nat) -> Seq<char> {
    "Rule "@ + decimal(n) + ": "@ + rule.name + "\n"@ + "  Continue processing: "@ + yes_no(
        rule.continue_processing,
    ) + "\n"@ + "  Skip if to me: "@ + yes_no(rule.skip_if_to_me) + "\n"@ + "  Match: "@
        + shown_condition(rule.condition) + "\n"@ + "  Actions: "@ + shown_actions(rule.actions)
        + "\n"@
}

/// How the first `k` rules are shown.
pub open spec fn shown_rules_upto(rules: Seq<CompiledRuleV>, k: int) -> Seq<char>
    decreases k,
{
    if k <= 0 {
        Seq::empty()
    } else {
        shown_rules_upto(rules, k - 1) + shown_rule(rules[k - 1], k as nat)
    }
}

fn format_rule(rule: &CompiledRule, n: usize) -> (r: String)
    ensures
        r@ == shown_rule(rule.deep_view(), n as nat),
{
    let mut s = "Rule ".to_owned();
    s.append(dec(n as u64).as_str());
    s.append(": ");
    s.append(rule.name.as_str());
    s.append("\n");
    s.append("  Continue processing: ");
    s.append(show_bool(rule.continue_processing));
    s.append("\n");
    s.append("  Skip if to me: ");
    s.append(show_bool(rule.skip_if_to_me));
    s.append("\n");
    s.append("  Match: ");
    s.append(format_condition_for_display(&rule.condition).as_str());
    s.append("\n");
    s.append("  Actions: ");
    s.append(format_actions_for_display(rule.actions.as_slice()).as_str());
    s.append("\n");
    s
}

/// How rules are shown.
pub fn format_rules_for_display(rules: &[CompiledRule]) -> (r: String)
    ensures
        r@ == if rules@.len() == 0 {
            "No rules defined."@
        } else {
            shown_rules_upto(rules.deep_view(), rules@.len() as int)
        },
{
    if rules.len() == 0 {
        return "No rules defined.".to_owned();
    }
    let mut out = String::new();
    let mut i: usize = 0;
    while i < rules.len()
        invariant
            i <= rules@.len(),
            out@ == shown_rules_upto(rules.deep_view(), i as int),
        decreases rules@.len() - i,
    {
        out.append(format_rule(at(rules, i), i + 1).as_str());
        i = i + 1;
    }
    out
}

// ---------------------------------------------------------------------------
// Headers that the rules look at
// ---------------------------------------------------------------------------

/// Whether a header is one that every message is fetched with.
pub open spec fn standard_header(header: Seq<char>) -> bool {
    let h = lowercase(header);
    ||| h == "from"@
    ||| h == "to"@
    ||| h == "cc"@
    ||| h == "reply-to"@
    ||| h == "subject"@
    ||| h == "message-id"@
}

/// Whether a header is one that every message is fetched with.
pub fn is_standard_header(header: &str) -> (r: bool)
    ensures
        r == standard_header(header@),
{
    let h = to_lowercase(header);
    same(h.as_str(), "from") || same(h.as_str(), "to") || same(h.as_str(), "cc") || same(
        h.as_str(),
        "reply-to",
    ) || same(h.as_str(), "subject") || same(h.as_str(), "message-id")
}

/// A list that holds a text, which is added at the end if it was missing.
pub open spec fn with_text(acc: Seq<Seq<char>>, s: Seq<char>) -> Seq<Seq<char>> {
    if acc.contains(s) {
        acc
    } else {
        acc.push(s)
    }
}

/// `acc` with the headers that a condition looks at.
pub open spec fn headers_in(c: CompiledConditionV, acc: Seq<Seq<char>>) -> Seq<Seq<char>>
    decreases c, 0int,
{
    match c {
        CompiledConditionV::Header { header, .. } => with_text(acc, header),
        CompiledConditionV::All(v) => headers_in_upto(v, acc, v.len() as int),
        CompiledConditionV::Any(v) => headers_in_upto(v, acc, v.len() as int),
        CompiledConditionV::Not(inner) => headers_in(*inner, acc),
    }
}

/// `acc` with the headers that the first `k` conditions look at.
pub open spec fn headers_in_upto(
    v: Seq<CompiledConditionV>,
    acc: Seq<Seq<char>>,
    k: int,
) -> Seq<Seq<char>>
    decreases v, k,
{
    if k <= 0 || k > v.len() {
        acc
    } else {
        headers_in(v[k - 1], headers_in_upto(v, acc, k - 1))
    }
}

fn collect_from_list(v: &Vec<CompiledCondition>, headers: &mut Vec<String>)
    ensures
        final(headers).deep_view() == headers_in_upto(
            conditions_view(*v),
            old(headers).deep_view(),
            v@.len() as int,
        ),
    decreases v,
{
    let ghost start = headers.deep_view();
    let mut i: usize = 0;
    while i < v.len()
        invariant
            i <= v@.len(),
            headers.deep_view() == headers_in_upto(conditions_view(*v), start, i as int),
        decreases v@.len() - i,
    {
        assert(decreases_to!(*v => v[i as int]));
        assert(conditions_view(*v)[i as int] == condition_view(v@[i as int]));
        collect_headers_from_condition(&v[i], headers);
        i = i + 1;
    }
}

/// Adds the headers that a condition looks at to those collected before.
pub fn collect_headers_from_condition(condition: &CompiledCondition, headers: &mut Vec<String>)
    ensures
        final(headers).deep_view() == headers_in(condition.deep_view(), old(headers).deep_view()),
    decreases condition,
{
    match condition {
        CompiledCondition::Header { header, .. } => {
            if !list_contains(headers, header.as_str()) {
                put(headers, header.clone());
            }
        },
        CompiledCondition::All(v) => {
            collect_from_list(v, headers);
        },
        CompiledCondition::Any(v) => {
            collect_from_list(v, headers);
        },
        CompiledCondition::Not(inner) => {
            collect_headers_from_condition(&**inner, headers);
        },
    }
}

/// The headers that the first `k` rules look at, each once.
pub open spec fn rule_headers_upto(rules: Seq<CompiledRuleV>, k: int) -> Seq<Seq<char>>
    decreases k,
{
    if k <= 0 {
        Seq::empty()
    } else {
        headers_in(rules[k - 1].condition, rule_headers_upto(rules, k - 1))
    }
}

/// The property under which a message carries a header that is not standard.
pub open spec fn header_property(header: Seq<char>) -> Seq<char> {
    "header:"@ + header + ":asText"@
}

fn property_name(header: &str) -> (r: String)
    ensures
        r@ == header_property(header@),
{
    let mut s = "header:".to_owned();
    s.append(header);
    s.append(":asText");
    s
}

/// The properties for those of the first `k` headers that are not standard.
pub open spec fn custom_upto(headers: Seq<Seq<char>>, k: int) -> Seq<Seq<char>>
    decreases k,
{
    if k <= 0 {
        Seq::empty()
    } else if standard_header(headers[k - 1]) {
        custom_upto(headers, k - 1)
    } else {
        custom_upto(headers, k - 1).push(header_property(headers[k - 1]))
    }
}

/// The properties to ask for so that the rules find every header they look at.
pub fn extract_custom_headers(rules: &[CompiledRule]) -> (r: Vec<String>)
    ensures
        ({
            let headers = rule_headers_upto(rules.deep_view(), rules@.len() as int);
            r.deep_view() == custom_upto(headers, headers.len() as int)
        }),
{
    let mut headers: Vec<String> = no_items();
    let mut i: usize = 0;
    while i < rules.len()
        invariant
            i <= rules@.len(),
            headers.deep_view() == rule_headers_upto(rules.deep_view(), i as int),
        decreases rules@.len() - i,
    {
        collect_headers_from_condition(&at(rules, i).condition, &mut headers);
        i = i + 1;
    }
    let mut out: Vec<String> = no_items();
    let mut j: usize = 0;
    while j < headers.len()
        invariant
            j <= headers@.len(),
            out.deep_view() == custom_upto(headers.deep_view(), j as int),
        decreases headers@.len() - j,
    {
        let h = at(headers.as_slice(), j);
        if !is_standard_header(h.as_str()) {
            put(&mut out, property_name(h.as_str()));
        }
        j = j + 1;
    }
    out
}

// ---------------------------------------------------------------------------
// Evaluation
// ---------------------------------------------------------------------------

/// How a list of addresses is shown.
pub open spec fn shown_addresses(list: Seq<EmailAddressV>) -> Seq<char> {
    joined(list.map_values(|a: EmailAddressV| shown_address(a)), ", "@)
}

/// How an optional list of addresses is shown.
pub open spec fn shown_address_list(addrs: Option<Seq<EmailAddressV>>) -> Option<Seq<char>> {
    match addrs {
        Some(list) => Some(shown_addresses(list)),
        None => None,
    }
}

/// The addresses as texts with a comma between neighbours.
pub fn join_addresses(list: &Vec<EmailAddress>) -> (r: String)
    ensures
        r@ == shown_addresses(list.deep_view()),
{
    let ghost lv = list.deep_view();
    let mut parts: Vec<String> = no_items();
    let mut i: usize = 0;
    while i < list.len()
        invariant
            i <= list@.len(),
            lv == list.deep_view(),
            parts.deep_view().len() == i,
            forall|j: int| 0 <= j < i ==> #[trigger] parts.deep_view()[j] == shown_address(lv[j]),
        decreases list@.len() - i,
    {
        put(&mut parts, at(list.as_slice(), i).to_string());
        i = i + 1;
    }
    assert(parts.deep_view() =~= lv.map_values(|a: EmailAddressV| shown_address(a)));
    join(&parts, ", ")
}

/// How an optional list of addresses is shown.
pub fn format_addresses(addrs: &Option<Vec<EmailAddress>>) -> (r: Option<String>)
    ensures
        r.deep_view() == shown_address_list(addrs.deep_view()),
{
    match addrs {
        Some(list) => Some(join_addresses(list)),
        None => None,
    }
}

/// What a message holds under a header.
pub open spec fn header_value(header: Seq<char>, e: EmailV) -> Option<Seq<char>> {
    let h = lowercase(header);
    if h == "from"@ {
        shown_address_list(e.from)
    } else if h == "to"@ {
        shown_address_list(e.to)
    } else if h == "cc"@ {
        shown_address_list(e.cc)
    } else if h == "reply-to"@ {
        shown_address_list(e.reply_to)
    } else if h == "subject"@ {
        e.subject
    } else if h == "message-id"@ {
        match e.message_id {
            Some(ids) => Some(joined(ids, " "@)),
            None => None,
        }
    } else {
        match lookup(e.extra, header_property(header)) {
            Some(JsonV::Text(s)) => Some(s),
            _ => None,
        }
    }
}

/// What a message holds under a header.
pub fn resolve_header_value(header: &str, email: &Email) -> (r: Option<String>)
    ensures
        r.deep_view() == header_value(header@, email.deep_view()),
{
    let h = to_lowercase(header);
    if same(h.as_str(), "from") {
        format_addresses(&email.from)
    } else if same(h.as_str(), "to") {
        format_addresses(&email.to)
    } else if same(h.as_str(), "cc") {
        format_addresses(&email.cc)
    } else if same(h.as_str(), "reply-to") {
        format_addresses(&email.reply_to)
    } else if same(h.as_str(), "subject") {
        email.subject.dup()
    } else if same(h.as_str(), "message-id") {
        match &email.message_id {
            Some(ids) => Some(join(ids, " ")),
            None => None,
        }
    } else {
        let key = property_name(header);
        match email.extra.get(key.as_str()) {
            Some(j) => match j {
                Json::Text(s) => Some(s.clone()),
                _ => None,
            },
            None => None,
        }
    }
}

/// Whether a condition holds of a message.
pub open spec fn holds(c: CompiledConditionV, e: EmailV) -> bool
    decreases c, 0int,
{
    match c {
        CompiledConditionV::Header { header, regex } => match header_value(header, e) {
            Some(value) => regex_found(regex, value),
            None => false,
        },
        CompiledConditionV::All(v) => all_hold(v, e, v.len() as int),
        CompiledConditionV::Any(v) => any_holds(v, e, v.len() as int),
        CompiledConditionV::Not(inner) => !holds(*inner, e),
    }
}

/// Whether all of the first `k` conditions hold of a message.
pub open spec fn all_hold(v: Seq<CompiledConditionV>, e: EmailV, k: int) -> bool
    decreases v, k,
{
    k <= 0 || k > v.len() || (all_hold(v, e, k - 1) && holds(v[k - 1], e))
}

/// Whether one of the first `k` conditions holds of a message.
pub open spec fn any_holds(v: Seq<CompiledConditionV>, e: EmailV, k: int) -> bool
    decreases v, k,
{
    0 < k <= v.len() && (any_holds(v, e, k - 1) || holds(v[k - 1], e))
}

proof fn lemma_all_hold(v: Seq<CompiledConditionV>, e: EmailV, k: int)
    requires
        0 <= k <= v.len(),
    ensures
        all_hold(v, e, k) <==> forall|i: int| 0 <= i < k ==> #[trigger] holds(v[i], e),
    decreases k,
{
    if k > 0 {
        lemma_all_hold(v, e, k - 1);
        let last = v[k - 1];
        assert(all_hold(v, e, k) == (all_hold(v, e, k - 1) && holds(last, e)));
        if all_hold(v, e, k) {
            assert forall|i: int| 0 <= i < k implies #[trigger] holds(v[i], e) by {
                if i == k - 1 {
                    assert(v[i] == last);
                }
            }
        } else if !holds(last, e) {
            assert(!holds(v[k - 1], e));
        }
    }
}

proof fn lemma_any_holds(v: Seq<CompiledConditionV>, e: EmailV, k: int)
    requires
        0 <= k <= v.len(),
    ensures
        any_holds(v, e, k) <==> exists|i: int| 0 <= i < k && #[trigger] holds(v[i], e),
    decreases k,
{
    if k > 0 {
        lemma_any_holds(v, e, k - 1);
        let last = v[k - 1];
        assert(any_holds(v, e, k) == (any_holds(v, e, k - 1) || holds(last, e)));
        if holds(last, e) {
            assert(holds(v[k - 1], e));
        }
    }
}

/// `all` holds exactly when each of its conditions does, `any` exactly when one
/// of them does, and `not` exactly when its condition does not.
pub proof fn law_connectives(v: Seq<CompiledConditionV>, c: CompiledConditionV, e: EmailV)
    ensures
        holds(CompiledConditionV::All(v), e) <==> forall|i: int|
            0 <= i < v.len() ==> #[trigger] holds(v[i], e),
        holds(CompiledConditionV::Any(v), e) <==> exists|i: int|
            0 <= i < v.len() && #[trigger] holds(v[i], e),
        holds(CompiledConditionV::Not(Box::new(c)), e) <==> !holds(c, e),
{
    lemma_all_hold(v, e, v.len() as int);
    lemma_any_holds(v, e, v.len() as int);
}

/// Whether a condition holds of a message.
pub fn evaluate_condition(condition: &CompiledCondition, email: &Email) -> (r: bool)
    ensures
        r == holds(condition.deep_view(), email.deep_view()),
    decreases condition,
{
    match condition {
        CompiledCondition::Header { header, regex } => match resolve_header_value(
            header.as_str(),
            email,
        ) {
            Some(value) => regex.is_match(value.as_str()),
            None => false,
        },
        CompiledCondition::All(v) => {
            let ghost cv = conditions_view(*v);
            let mut i: usize = 0;
            while i < v.len()
                invariant
                    condition is All,
                    condition->All_0 == *v,
                    cv == conditions_view(*v),
                    i <= v@.len(),
                    all_hold(cv, email.deep_view(), i as int),
                decreases v@.len() - i,
            {
                assert(decreases_to!(*v => v[i as int]));
                assert(cv[i as int] == condition_view(v@[i as int]));
                if !evaluate_condition(&v[i], email) {
                    proof {
                        lemma_all_hold(cv, email.deep_view(), cv.len() as int);
                    }
                    return false;
                }
                i = i + 1;
            }
            true
        },
        CompiledCondition::Any(v) => {
            let ghost cv = conditions_view(*v);
            let mut i: usize = 0;
            while i < v.len()
                invariant
                    condition is Any,
                    condition->Any_0 == *v,
                    cv == conditions_view(*v),
                    i <= v@.len(),
                    !any_holds(cv, email.deep_view(), i as int),
                decreases v@.len() - i,
            {
                assert(decreases_to!(*v => v[i as int]));
                assert(cv[i as int] == condition_view(v@[i as int]));
                if evaluate_condition(&v[i], email) {
                    proof {
                        lemma_any_holds(cv, email.deep_view(), cv.len() as int);
                    }
                    return true;
                }
                i = i + 1;
            }
            false
        },
        CompiledCondition::Not(inner) => !evaluate_condition(&**inner, email),
    }
}

// ---------------------------------------------------------------------------
// Mailbox names
// ---------------------------------------------------------------------------

/// The first mailbox at or after `i` with a name, or the number of mailboxes.
pub open spec fn named_index(s: Seq<MailboxV>, name: Seq<char>, i: int) -> int
    decreases s.len() - i,
{
    if i >= s.len() {
        s.len() as int
    } else if s[i].name == name {
        i
    } else {
        named_index(s, name, i + 1)
    }
}

/// Whether a mailbox has a role, whatever the case of its letters.
pub open spec fn has_role_folded(m: MailboxV, lower: Seq<char>) -> bool {
    match m.role {
        Some(r) => lowercase(r) == lower,
        None => false,
    }
}

/// The first mailbox at or after `i` with a role, or the number of mailboxes.
pub open spec fn role_index(s: Seq<MailboxV>, lower: Seq<char>, i: int) -> int
    decreases s.len() - i,
{
    if i >= s.len() {
        s.len() as int
    } else if has_role_folded(s[i], lower) {
        i
    } else {
        role_index(s, lower, i + 1)
    }
}

/// The last of the first `n` mailboxes with an id.
pub open spec fn last_with_id(s: Seq<MailboxV>, id: Seq<char>, n: int) -> Option<int>
    decreases n,
{
    if n <= 0 {
        None
    } else if s[n - 1].id == id {
        Some(n - 1)
    } else {
        last_with_id(s, id, n - 1)
    }
}

/// The names from the topmost ancestor of a mailbox down to itself, with slashes
/// between; nothing if the chain of parents takes more than `fuel` steps.
pub open spec fn full_path(s: Seq<MailboxV>, m: MailboxV, fuel: int) -> Option<Seq<char>>
    decreases fuel,
{
    match m.parent_id {
        None => Some(m.name),
        Some(pid) => match last_with_id(s, pid, s.len() as int) {
            None => Some(m.name),
            Some(i) => if fuel <= 0 {
                None
            } else {
                match full_path(s, s[i], fuel - 1) {
                    Some(path) => Some(path + "/"@ + m.name),
                    None => None,
                }
            },
        },
    }
}

/// The first mailbox at or after `i` whose name is `leaf` and whose path is
/// `name`, or the number of mailboxes.
pub open spec fn path_index(s: Seq<MailboxV>, leaf: Seq<char>, name: Seq<char>, i: int) -> int
    decreases s.len() - i,
{
    if i >= s.len() {
        s.len() as int
    } else if s[i].name == leaf && full_path(s, s[i], s.len() as int) == Some(name) {
        i
    } else {
        path_index(s, leaf, name, i + 1)
    }
}

/// The mailbox that a name stands for: by its exact name, else by role, else by
/// its path.
pub open spec fn resolved_mailbox(name: Seq<char>, s: Seq<MailboxV>) -> Option<Seq<char>> {
    let n = named_index(s, name, 0);
    let r = role_index(s, lowercase(name), 0);
    let p = path_index(s, pieces(name, '/').last(), name, 0);
    if n < s.len() {
        Some(s[n].id)
    } else if r < s.len() {
        Some(s[r].id)
    } else if name.contains('/') && p < s.len() {
        Some(s[p].id)
    } else {
        None
    }
}

fn path_of(mailboxes: &[Mailbox], m: &Mailbox, fuel: usize) -> (r: Option<String>)
    ensures
        r.deep_view() == full_path(mailboxes.deep_view(), m.deep_view(), fuel as int),
    decreases fuel,
{
    match &m.parent_id {
        None => Some(m.name.clone()),
        Some(pid) => {
            let ghost mv = mailboxes.deep_view();
            let mut n: usize = mailboxes.len();
            while n > 0
                invariant
                    n <= mailboxes@.len(),
                    mv == mailboxes.deep_view(),
                    m.parent_id == Some(*pid),
                    last_with_id(mv, pid@, n as int) == last_with_id(
                        mv,
                        pid@,
                        mailboxes@.len() as int,
                    ),
                decreases n,
            {
                let parent = at(mailboxes, n - 1);
                if same(parent.id.as_str(), pid.as_str()) {
                    if fuel == 0 {
                        return None;
                    }
                    return match path_of(mailboxes, parent, fuel - 1) {
                        Some(path) => {
                            let mut s = path;
                            s.append("/");
                            s.append(m.name.as_str());
                            Some(s)
                        },
                        None => None,
                    };
                }
                n = n - 1;
            }
            Some(m.name.clone())
        },
    }
}

/// The mailbox that a name stands for: by its exact name, else by role, else by
/// its path. A mailbox that is its own ancestor has no path.
pub fn resolve_mailbox_id(name: &str, mailboxes: &[Mailbox]) -> (r: Option<String>)
    ensures
        r.deep_view() == resolved_mailbox(name@, mailboxes.deep_view()),
{
    let ghost mv = mailboxes.deep_view();
    let mut i: usize = 0;
    while i < mailboxes.len()
        invariant
            i <= mailboxes@.len(),
            mv == mailboxes.deep_view(),
            named_index(mv, name@, 0) == named_index(mv, name@, i as int),
        decreases mailboxes@.len() - i,
    {
        let m = at(mailboxes, i);
        if same(m.name.as_str(), name) {
            return Some(m.id.clone());
        }
        i = i + 1;
    }
    let lower = to_lowercase(name);
    let mut j: usize = 0;
    while j < mailboxes.len()
        invariant
            j <= mailboxes@.len(),
            mv == mailboxes.deep_view(),
            lower@ == lowercase(name@),
            named_index(mv, name@, 0) == mv.len(),
            role_index(mv, lower@, 0) == role_index(mv, lower@, j as int),
        decreases mailboxes@.len() - j,
    {
        let m = at(mailboxes, j);
        match &m.role {
            Some(r) => {
                let folded = to_lowercase(r.as_str());
                if same(folded.as_str(), lower.as_str()) {
                    return Some(m.id.clone());
                }
            },
            None => {},
        }
        j = j + 1;
    }
    let parts = split(name, '/');
    if parts.len() > 1 {
        proof {
            lemma_pieces_many(name@, '/');
        }
        let leaf = at(parts.as_slice(), parts.len() - 1);
        let mut k: usize = 0;
        while k < mailboxes.len()
            invariant
                k <= mailboxes@.len(),
                mv == mailboxes.deep_view(),
                named_index(mv, name@, 0) == mv.len(),
                role_index(mv, lowercase(name@), 0) == mv.len(),
                leaf@ == pieces(name@, '/').last(),
                name@.contains('/'),
                path_index(mv, leaf@, name@, 0) == path_index(mv, leaf@, name@, k as int),
            decreases mailboxes@.len() - k,
        {
            let m = at(mailboxes, k);
            if same(m.name.as_str(), leaf.as_str()) {
                match path_of(mailboxes, m, mailboxes.len()) {
                    Some(path) => {
                        if same(path.as_str(), name) {
                            return Some(m.id.clone());
                        }
                    },
                    None => {},
                }
            }
            k = k + 1;
        }
    } else {
        proof {
            lemma_pieces_many(name@, '/');
        }
    }
    None
}

// ---------------------------------------------------------------------------
// Application
// ---------------------------------------------------------------------------

/// The recipients of a message, the `to` addresses before the `cc` addresses.
pub open spec fn recipients(e: EmailV) -> Seq<char> {
    let to = match shown_address_list(e.to) {
        Some(s) => s,
        None => Seq::empty(),
    };
    match shown_address_list(e.cc) {
        Some(cc) => if to.len() == 0 {
            to + cc
        } else {
            to + ", "@ + cc
        },
        None => to,
    }
}

/// Whether a message was sent to the user.
pub open spec fn to_me(e: EmailV, me: Regex) -> bool {
    recipients(e).len() > 0 && regex_found(me, recipients(e))
}

/// Whether a message was sent to the user.
pub fn is_email_to_me(email: &Email, my_email_regex: &Regex) -> (r: bool)
    ensures
        r == to_me(email.deep_view(), *my_email_regex),
{
    let mut combined = match format_addresses(&email.to) {
        Some(to) => to,
        None => String::new(),
    };
    match format_addresses(&email.cc) {
        Some(cc) => {
            if !combined.as_str().is_empty() {
                combined.append(", ");
            }
            combined.append(cc.as_str());
        },
        None => {},
    }
    if combined.as_str().is_empty() {
        return false;
    }
    my_email_regex.is_match(combined.as_str())
}

/// Whether an action would change a message.
pub open spec fn effective(a: ActionV, e: EmailV, mailboxes: Seq<MailboxV>) -> bool {
    match a {
        ActionV::MarkRead => lookup(e.keywords, "$seen"@) is None,
        ActionV::MarkUnread => lookup(e.keywords, "$seen"@) is Some,
        ActionV::Flag => lookup(e.keywords, "$flagged"@) is None,
        ActionV::Unflag => lookup(e.keywords, "$flagged"@) is Some,
        ActionV::Move { target } => match resolved_mailbox(target, mailboxes) {
            Some(id) => lookup(e.mailbox_ids, id) is None,
            None => false,
        },
        ActionV::Delete => true,
    }
}

/// Those of the first `k` actions that would change a message.
pub open spec fn effective_upto(
    actions: Seq<ActionV>,
    e: EmailV,
    mailboxes: Seq<MailboxV>,
    k: int,
) -> Seq<ActionV>
    decreases k,
{
    if k <= 0 {
        Seq::empty()
    } else if effective(actions[k - 1], e, mailboxes) {
        effective_upto(actions, e, mailboxes, k - 1).push(actions[k - 1])
    } else {
        effective_upto(actions, e, mailboxes, k - 1)
    }
}

/// The actions that would change a message.
pub open spec fn effective_actions(
    actions: Seq<ActionV>,
    e: EmailV,
    mailboxes: Seq<MailboxV>,
) -> Seq<ActionV> {
    effective_upto(actions, e, mailboxes, actions.len() as int)
}

/// The actions that would change a message.
pub fn filter_noop_actions(actions: &[Action], email: &Email, mailboxes: &[Mailbox]) -> (r: Vec<
    Action,
>)
    ensures
        r.deep_view() == effective_actions(
            actions.deep_view(),
            email.deep_view(),
            mailboxes.deep_view(),
        ),
{
    let mut filtered: Vec<Action> = no_items();
    let mut i: usize = 0;
    while i < actions.len()
        invariant
            i <= actions@.len(),
            filtered.deep_view() == effective_upto(
                actions.deep_view(),
                email.deep_view(),
                mailboxes.deep_view(),
                i as int,
            ),
        decreases actions@.len() - i,
    {
        let action = at(actions, i);
        let keep = match action {
            Action::MarkRead => !email.keywords.contains_key("$seen"),
            Action::MarkUnread => email.keywords.contains_key("$seen"),
            Action::Flag => !email.keywords.contains_key("$flagged"),
            Action::Unflag => email.keywords.contains_key("$flagged"),
            Action::Move { target } => match resolve_mailbox_id(target.as_str(), mailboxes) {
                Some(id) => !email.mailbox_ids.contains_key(id.as_str()),
                None => false,
            },
            Action::Delete => true,
        };
        if keep {
            put(&mut filtered, action.dup());
        }
        i = i + 1;
    }
    filtered
}

/// Whether a rule fires for a message.
pub open spec fn fires(rule: CompiledRuleV, e: EmailV, me: Regex) -> bool {
    !(rule.skip_if_to_me && to_me(e, me)) && holds(rule.condition, e)
}

/// What the rules from position `j` on suggest for a message: what the first rule with
/// a suggestion that fires does, under its name; a message that no such rule fires on
/// is kept.
pub open spec fn suggestion_from(
    rules: Seq<CompiledRuleV>,
    e: EmailV,
    me: Regex,
    j: int,
) -> (TriageHintActionDef, Seq<char>)
    decreases rules.len() - j,
{
    if j >= rules.len() {
        (TriageHintActionDef::Keep, "no rule"@)
    } else {
        match rules[j].triage_action {
            Some(action) => if fires(rules[j], e, me) {
                (action, rules[j].name)
            } else {
                suggestion_from(rules, e, me, j + 1)
            },
            None => suggestion_from(rules, e, me, j + 1),
        }
    }
}

/// What the rules suggest for a message, and why.
pub fn suggest(rules: &[CompiledRule], email: &Email, my_email_regex: &Regex) -> (r: (
    TriageHintActionDef,
    String,
))
    ensures
        (r.0, r.1@) == suggestion_from(rules.deep_view(), email.deep_view(), *my_email_regex, 0),
{
    let ghost rv = rules.deep_view();
    let ghost ev = email.deep_view();
    let mut j: usize = 0;
    while j < rules.len()
        invariant
            j <= rules@.len(),
            rv == rules.deep_view(),
            ev == email.deep_view(),
            suggestion_from(rv, ev, *my_email_regex, 0) == suggestion_from(
                rv,
                ev,
                *my_email_regex,
                j as int,
            ),
        decreases rules@.len() - j,
    {
        let rule = at(rules, j);
        match rule.triage_action {
            Some(action) => {
                let skipped = rule.skip_if_to_me && is_email_to_me(email, my_email_regex);
                if !skipped && evaluate_condition(&rule.condition, email) {
                    return (action, rule.name.clone());
                }
            },
            None => {},
        }
        j = j + 1;
    }
    (TriageHintActionDef::Keep, "no rule".to_owned())
}

/// What the rules from position `j` on ask for on a message. A rule that fires
/// is the last one unless it lets processing continue.
pub open spec fn applications_from(
    rules: Seq<CompiledRuleV>,
    e: EmailV,
    mailboxes: Seq<MailboxV>,
    me: Regex,
    j: int,
) -> Seq<RuleApplicationV>
    decreases rules.len() - j,
{
    if j < 0 || j >= rules.len() {
        Seq::empty()
    } else if !fires(rules[j], e, me) {
        applications_from(rules, e, mailboxes, me, j + 1)
    } else {
        let actions = effective_actions(rules[j].actions, e, mailboxes);
        let own = if actions.len() == 0 {
            Seq::empty()
        } else {
            seq![RuleApplicationV { email_id: e.id, rule_name: rules[j].name, actions }]
        };
        if rules[j].continue_processing {
            own + applications_from(rules, e, mailboxes, me, j + 1)
        } else {
            own
        }
    }
}

/// What the rules ask for on the first `k` messages.
pub open spec fn applications_upto(
    rules: Seq<CompiledRuleV>,
    emails: Seq<EmailV>,
    mailboxes: Seq<MailboxV>,
    me: Regex,
    k: int,
) -> Seq<RuleApplicationV>
    decreases k,
{
    if k <= 0 {
        Seq::empty()
    } else {
        applications_upto(rules, emails, mailboxes, me, k - 1) + applications_from(
            rules,
            emails[k - 1],
            mailboxes,
            me,
            0,
        )
    }
}

fn apply_to_email(
    rules: &[CompiledRule],
    email: &Email,
    mailboxes: &[Mailbox],
    my_email_regex: &Regex,
) -> (r: Vec<RuleApplication>)
    ensures
        r.deep_view() == applications_from(
            rules.deep_view(),
            email.deep_view(),
            mailboxes.deep_view(),
            *my_email_regex,
            0,
        ),
{
    let ghost rv = rules.deep_view();
    let ghost ev = email.deep_view();
    let ghost mv = mailboxes.deep_view();
    let ghost me = *my_email_regex;
    let mut out: Vec<RuleApplication> = no_items();
    let mut j: usize = 0;
    let mut stopped = false;
    assert(out.deep_view() + applications_from(rv, ev, mv, me, 0) =~= applications_from(
        rv,
        ev,
        mv,
        me,
        0,
    ));
    while j < rules.len() && !stopped
        invariant
            j <= rules@.len(),
            rv == rules.deep_view(),
            ev == email.deep_view(),
            mv == mailboxes.deep_view(),
            me == *my_email_regex,
            stopped ==> out.deep_view() == applications_from(rv, ev, mv, me, 0),
            !stopped ==> out.deep_view() + applications_from(rv, ev, mv, me, j as int)
                == applications_from(rv, ev, mv, me, 0),
        decreases rules@.len() - j + (if stopped {
            0int
        } else {
            1int
        }),
    {
        let rule = at(rules, j);
        let ghost before = out.deep_view();
        let skipped = rule.skip_if_to_me && is_email_to_me(email, my_email_regex);
        if !skipped && evaluate_condition(&rule.condition, email) {
            let actions = filter_noop_actions(rule.actions.as_slice(), email, mailboxes);
            if actions.len() > 0 {
                put(
                    &mut out,
                    RuleApplication {
                        email_id: email.id.clone(),
                        rule_name: rule.name.clone(),
                        actions,
                    },
                );
            }
            if !rule.continue_processing {
                stopped = true;
            }
            proof {
                let rest = applications_from(rv, ev, mv, me, j + 1);
                let acts = effective_actions(rv[j as int].actions, ev, mv);
                let own = if acts.len() == 0 {
                    Seq::empty()
                } else {
                    seq![
                        RuleApplicationV {
                            email_id: ev.id,
                            rule_name: rv[j as int].name,
                            actions: acts,
                        },
                    ]
                };
                assert(out.deep_view() =~= before + own);
                assert(before + (own + rest) =~= (before + own) + rest);
            }
        }
        j = j + 1;
    }
    proof {
        assert(out.deep_view() + Seq::<RuleApplicationV>::empty() =~= out.deep_view());
    }
    out
}

/// What the rules ask for on each message. Actions that would change nothing are
/// left out, and so are rules that then ask for nothing.
pub fn apply_rules(
    rules: &[CompiledRule],
    emails: &[Email],
    mailboxes: &[Mailbox],
    my_email_regex: &Regex,
) -> (r: Vec<RuleApplication>)
    ensures
        r.deep_view() == applications_upto(
            rules.deep_view(),
            emails.deep_view(),
            mailboxes.deep_view(),
            *my_email_regex,
            emails@.len() as int,
        ),
{
    let mut out: Vec<RuleApplication> = no_items();
    let mut i: usize = 0;
    while i < emails.len()
        invariant
            i <= emails@.len(),
            out.deep_view() == applications_upto(
                rules.deep_view(),
                emails.deep_view(),
                mailboxes.deep_view(),
                *my_email_regex,
                i as int,
            ),
        decreases emails@.len() - i,
    {
        let more = apply_to_email(rules, at(emails, i), mailboxes, my_email_regex);
        put_all(&mut out, more);
        i = i + 1;
    }
    out
}

/// The first mailbox at or after `i` whose role is exactly `role`, or the number
/// of mailboxes.
pub open spec fn exact_role_index(s: Seq<MailboxV>, role: Seq<char>, i: int) -> int
    decreases s.len() - i,
{
    if i >= s.len() {
        s.len() as int
    } else if s[i].role == Some(role) {
        i
    } else {
        exact_role_index(s, role, i + 1)
    }
}

/// The id of the first mailbox with a role.
pub open spec fn mailbox_with_role(s: Seq<MailboxV>, role: Seq<char>) -> Option<Seq<char>> {
    let i = exact_role_index(s, role, 0);
    if i < s.len() {
        Some(s[i].id)
    } else {
        None
    }
}

/// The id of the first mailbox with a role.
pub fn find_role(mailboxes: &[Mailbox], role: &str) -> (r: Option<String>)
    ensures
        r.deep_view() == mailbox_with_role(mailboxes.deep_view(), role@),
{
    let mut i: usize = 0;
    while i < mailboxes.len()
        invariant
            i <= mailboxes@.len(),
            exact_role_index(mailboxes.deep_view(), role@, 0) == exact_role_index(
                mailboxes.deep_view(),
                role@,
                i as int,
            ),
        decreases mailboxes@.len() - i,
    {
        let m = at(mailboxes, i);
        match &m.role {
            Some(r) => {
                if same(r.as_str(), role) {
                    return Some(m.id.clone());
                }
            },
            None => {},
        }
        i = i + 1;
    }
    None
}

/// The request that carries out an action on a message; nothing if the mailbox
/// it needs does not exist.
pub open spec fn step_for(a: ActionV, id: Seq<char>, mailboxes: Seq<MailboxV>) -> Option<
    MailboxStepV,
> {
    match a {
        ActionV::MarkRead => Some(MailboxStepV::MarkRead { id }),
        ActionV::MarkUnread => Some(MailboxStepV::MarkUnread { id }),
        ActionV::Flag => Some(MailboxStepV::SetFlagged { id, flagged: true }),
        ActionV::Unflag => Some(MailboxStepV::SetFlagged { id, flagged: false }),
        ActionV::Move { target } => match resolved_mailbox(target, mailboxes) {
            Some(to) => Some(MailboxStepV::Move { id, to }),
            None => None,
        },
        ActionV::Delete => match mailbox_with_role(mailboxes, "trash"@) {
            Some(to) => Some(MailboxStepV::Move { id, to }),
            None => None,
        },
    }
}

fn plan_step(action: &Action, id: &str, mailboxes: &[Mailbox]) -> (r: Option<MailboxStep>)
    ensures
        r.deep_view() == step_for(action.deep_view(), id@, mailboxes.deep_view()),
{
    match action {
        Action::MarkRead => Some(MailboxStep::MarkRead { id: id.to_owned() }),
        Action::MarkUnread => Some(MailboxStep::MarkUnread { id: id.to_owned() }),
        Action::Flag => Some(MailboxStep::SetFlagged { id: id.to_owned(), flagged: true }),
        Action::Unflag => Some(MailboxStep::SetFlagged { id: id.to_owned(), flagged: false }),
        Action::Move { target } => match resolve_mailbox_id(target.as_str(), mailboxes) {
            Some(to) => Some(MailboxStep::Move { id: id.to_owned(), to }),
            None => None,
        },
        Action::Delete => match find_role(mailboxes, "trash") {
            Some(to) => Some(MailboxStep::Move { id: id.to_owned(), to }),
            None => None,
        },
    }
}

/// The requests for the first `k` actions on a message.
pub open spec fn steps_for_upto(
    actions: Seq<ActionV>,
    id: Seq<char>,
    mailboxes: Seq<MailboxV>,
    k: int,
) -> Seq<MailboxStepV>
    decreases k,
{
    if k <= 0 {
        Seq::empty()
    } else {
        match step_for(actions[k - 1], id, mailboxes) {
            Some(s) => steps_for_upto(actions, id, mailboxes, k - 1).push(s),
            None => steps_for_upto(actions, id, mailboxes, k - 1),
        }
    }
}

/// The requests for the first `k` applications.
pub open spec fn steps_upto(
    apps: Seq<RuleApplicationV>,
    mailboxes: Seq<MailboxV>,
    k: int,
) -> Seq<MailboxStepV>
    decreases k,
{
    if k <= 0 {
        Seq::empty()
    } else {
        steps_upto(apps, mailboxes, k - 1) + steps_for_upto(
            apps[k - 1].actions,
            apps[k - 1].email_id,
            mailboxes,
            apps[k - 1].actions.len() as int,
        )
    }
}

fn steps_of_application(app: &RuleApplication, mailboxes: &[Mailbox]) -> (r: Vec<MailboxStep>)
    ensures
        r.deep_view() == steps_for_upto(
            app.deep_view().actions,
            app.deep_view().email_id,
            mailboxes.deep_view(),
            app.actions@.len() as int,
        ),
{
    let mut out: Vec<MailboxStep> = no_items();
    let mut i: usize = 0;
    while i < app.actions.len()
        invariant
            i <= app.actions@.len(),
            out.deep_view() == steps_for_upto(
                app.deep_view().actions,
                app.deep_view().email_id,
                mailboxes.deep_view(),
                i as int,
            ),
        decreases app.actions@.len() - i,
    {
        match plan_step(at(app.actions.as_slice(), i), app.email_id.as_str(), mailboxes) {
            Some(s) => {
                put(&mut out, s);
            },
            None => {},
        }
        i = i + 1;
    }
    out
}

/// The requests that carry out rule applications, in order. An action whose
/// mailbox does not exist is left out; the caller sends the requests one by one
/// and goes on when one fails.
pub fn execute_rule_actions(applications: &[RuleApplication], mailboxes: &[Mailbox]) -> (r: Vec<
    MailboxStep,
>)
    ensures
        r.deep_view() == steps_upto(
            applications.deep_view(),
            mailboxes.deep_view(),
            applications@.len() as int,
        ),
{
    let mut out: Vec<MailboxStep> = no_items();
    let mut i: usize = 0;
    while i < applications.len()
        invariant
            i <= applications@.len(),
            out.deep_view() == steps_upto(
                applications.deep_view(),
                mailboxes.deep_view(),
                i as int,
            ),
        decreases applications@.len() - i,
    {
        let more = steps_of_application(at(applications, i), mailboxes);
        put_all(&mut out, more);
        i = i + 1;
    }
    out
}

// ---------------------------------------------------------------------------
// What holds of every run
// ---------------------------------------------------------------------------

proof fn lemma_effective_upto(
    actions: Seq<ActionV>,
    e: EmailV,
    mailboxes: Seq<MailboxV>,
    k: int,
)
    requires
        0 <= k <= actions.len(),
    ensures
        effective_upto(actions, e, mailboxes, k).len() <= k,
        forall|i: int|
            0 <= i < effective_upto(actions, e, mailboxes, k).len() ==> effective(
                #[trigger] effective_upto(actions, e, mailboxes, k)[i],
                e,
                mailboxes,
            ) && actions.contains(effective_upto(actions, e, mailboxes, k)[i]),
    decreases k,
{
    if k > 0 {
        lemma_effective_upto(actions, e, mailboxes, k - 1);
        assert(actions.contains(actions[k - 1]));
    }
}

/// Every action that the rules ask for is one of the rule's actions and would
/// change the message; an application is never empty and names the message.
pub open spec fn applications_sound(
    apps: Seq<RuleApplicationV>,
    e: EmailV,
    mailboxes: Seq<MailboxV>,
) -> bool {
    forall|i: int|
        0 <= i < apps.len() ==> (#[trigger] apps[i]).email_id == e.id && apps[i].actions.len() > 0
            && forall|k: int|
            0 <= k < apps[i].actions.len() ==> effective(
                #[trigger] apps[i].actions[k],
                e,
                mailboxes,
            )
}

/// No rule asks for an action that would change nothing.
pub proof fn law_no_noop_actions(
    rules: Seq<CompiledRuleV>,
    e: EmailV,
    mailboxes: Seq<MailboxV>,
    me: Regex,
    j: int,
)
    ensures
        applications_sound(applications_from(rules, e, mailboxes, me, j), e, mailboxes),
    decreases rules.len() - j,
{
    if 0 <= j < rules.len() {
        law_no_noop_actions(rules, e, mailboxes, me, j + 1);
        lemma_effective_upto(rules[j].actions, e, mailboxes, rules[j].actions.len() as int);
    }
}

/// The first rule that fires is the only one that counts unless it lets
/// processing continue.
pub proof fn law_first_match_stops(
    rules: Seq<CompiledRuleV>,
    more: Seq<CompiledRuleV>,
    e: EmailV,
    mailboxes: Seq<MailboxV>,
    me: Regex,
    j: int,
    stop: int,
)
    requires
        0 <= j <= stop < rules.len(),
        fires(rules[stop], e, me),
        !rules[stop].continue_processing,
    ensures
        applications_from(rules + more, e, mailboxes, me, j) == applications_from(
            rules,
            e,
            mailboxes,
            me,
            j,
        ),
    decreases stop - j,
{
    assert((rules + more)[j] == rules[j]);
    if j < stop {
        law_first_match_stops(rules, more, e, mailboxes, me, j + 1, stop);
    }
}

/// Once every action of the rules that fire has taken effect, the rules ask for
/// nothing more.
pub proof fn law_settled_messages_are_left_alone(
    rules: Seq<CompiledRuleV>,
    e: EmailV,
    mailboxes: Seq<MailboxV>,
    me: Regex,
    j: int,
)
    requires
        forall|r: int, k: int|
            0 <= r < rules.len() && 0 <= k < rules[r].actions.len() && fires(rules[r], e, me)
                ==> !effective(#[trigger] rules[r].actions[k], e, mailboxes),
    ensures
        applications_from(rules, e, mailboxes, me, j) == Seq::<RuleApplicationV>::empty(),
    decreases rules.len() - j,
{
    if 0 <= j < rules.len() {
        law_settled_messages_are_left_alone(rules, e, mailboxes, me, j + 1);
        if fires(rules[j], e, me) {
            lemma_nothing_effective(rules[j].actions, e, mailboxes, rules[j].actions.len() as int);
        }
    }
}

proof fn lemma_nothing_effective(
    actions: Seq<ActionV>,
    e: EmailV,
    mailboxes: Seq<MailboxV>,
    k: int,
)
    requires
        0 <= k <= actions.len(),
        forall|i: int| 0 <= i < actions.len() ==> !effective(#[trigger] actions[i], e, mailboxes),
    ensures
        effective_upto(actions, e, mailboxes, k) == Seq::<ActionV>::empty(),
    decreases k,
{
    if k > 0 {
        lemma_nothing_effective(actions, e, mailboxes, k - 1);
    }
}

} // verus!
