//! The parameter commands' decisions: value-source conflicts, project ownership, the
//! create/update transitions of `set`, the rule edit plan and what a failure undoes.
use crate::details::{rule_position, ParameterDetails};
use crate::models::{ParameterRule, ParameterRuleTypeEnum};
use crate::text::{contains_exec, contains_text, text_eq};
use vstd::prelude::*;

verus! {

/// Why a parameter command stops.
#[derive(Clone, Copy, Debug, PartialEq, Eq, Structural)]
pub enum SetError {
    /// A static value source was combined with an external reference.
    ConflictingSources,
    /// Deleting a rule failed.
    RuleDeleteFailed,
    /// Creating or updating a rule failed.
    RuleSetFailed,
    /// The parameter belongs to another project (while setting it).
    SetInOtherProject,
    /// The parameter belongs to another project (while deleting it).
    DeleteInOtherProject,
}

impl SetError {
    /// The process exit code for the error.
    pub open spec fn code(&self) -> i32 {
        match self {
            SetError::ConflictingSources => 7,
            SetError::RuleDeleteFailed => 11,
            SetError::RuleSetFailed => 12,
            SetError::SetInOtherProject => 20,
            SetError::DeleteInOtherProject => 24,
        }
    }

    pub fn exit_code(&self) -> (r: i32)
        ensures
            r == self.code(),
    {
        match self {
            SetError::ConflictingSources => 7,
            SetError::RuleDeleteFailed => 11,
            SetError::RuleSetFailed => 12,
            SetError::SetInOtherProject => 20,
            SetError::DeleteInOtherProject => 24,
        }
    }
}

/// Reads a `true`/`false` option; anything else is no choice.
pub fn true_false_option(input: Option<&str>) -> (r: Option<bool>)
    ensures
        r == match input {
            Some(s) => if s@ == "true"@ {
                Some(true)
            } else if s@ == "false"@ {
                Some(false)
            } else {
                None::<bool>
            },
            None => None::<bool>,
        },
{
    match input {
        Some(s) => {
            if text_eq(s, "true") {
                Some(true)
            } else if text_eq(s, "false") {
                Some(false)
            } else {
                None
            }
        },
        None => None,
    }
}

/// The value type of a parameter.
#[derive(Clone, Copy, Debug, PartialEq, Eq, Structural)]
pub enum ParamType {
    String,
    Integer,
    Bool,
}

/// The value type named by a text: `string`, `integer` or `bool`; `None` for other texts.
pub fn param_type_from(name: &str) -> (r: Option<ParamType>)
    ensures
        r == if name@ == "string"@ {
            Some(ParamType::String)
        } else if name@ == "integer"@ {
            Some(ParamType::Integer)
        } else if name@ == "bool"@ {
            Some(ParamType::Bool)
        } else {
            None::<ParamType>
        },
{
    if text_eq(name, "string") {
        Some(ParamType::String)
    } else if text_eq(name, "integer") {
        Some(ParamType::Integer)
    } else if text_eq(name, "bool") {
        Some(ParamType::Bool)
    } else {
        None
    }
}

/// A static value (given, read from a file or prompted for) cannot be combined with an
/// external reference (an FQN or a JMES path); this is rejected before any call to the service.
pub fn check_value_sources(
    value_given: bool,
    prompt: bool,
    input_file_given: bool,
    fqn_given: bool,
    jmes_given: bool,
) -> (r: Result<(), SetError>)
    ensures
        r is Err <==> ((fqn_given || jmes_given) && (value_given || prompt || input_file_given)),
        r is Err ==> r == Err::<(), SetError>(SetError::ConflictingSources),
{
    if (fqn_given || jmes_given) && (value_given || prompt || input_file_given) {
        Err(SetError::ConflictingSources)
    } else {
        Ok(())
    }
}

/// Whether a parameter defined at `project_url` belongs to the project `proj_id`: its url holds
/// the project's id.
pub fn owned_by_project(project_url: &str, proj_id: &str) -> (r: bool)
    ensures
        r == contains_text(project_url@, proj_id@),
{
    contains_exec(project_url, proj_id)
}

/// What `set` does to the parameter and to its value.
#[derive(Clone, Copy, Debug, PartialEq, Eq, Structural)]
pub struct SetPlan {
    pub create_parameter: bool,
    pub update_parameter: bool,
    pub create_value: bool,
    pub update_value: bool,
}

/// The transitions of `set`: a missing parameter is created, an existing one updated when a
/// parameter field is given; a value is written when a value field is given, created where
/// the environment has none of its own and updated where it has.
pub fn set_transition(
    exists_in_project: bool,
    value_exists_in_env: bool,
    param_fields_given: bool,
    value_fields_given: bool,
) -> (r: SetPlan)
    ensures
        r.create_parameter == !exists_in_project,
        r.update_parameter == (exists_in_project && param_fields_given),
        r.create_value == (value_fields_given && !(exists_in_project && value_exists_in_env)),
        r.update_value == (value_fields_given && exists_in_project && value_exists_in_env),
{
    let has_value = exists_in_project && value_exists_in_env;
    SetPlan {
        create_parameter: !exists_in_project,
        update_parameter: exists_in_project && param_fields_given,
        create_value: value_fields_given && !has_value,
        update_value: value_fields_given && has_value,
    }
}

/// Whether the value shown in a detail record is set in the environment `env_id` itself.
pub fn value_in_environment(details: &ParameterDetails, env_id: &str) -> (r: bool)
    ensures
        r == contains_text(details.env_url@, env_id@),
{
    contains_exec(details.env_url.as_str(), env_id)
}

/// What `delete` does with the parameter found by name.
#[derive(Clone, Debug, PartialEq)]
pub enum DeleteDecision {
    /// No such parameter: nothing to delete.
    NotFound,
    /// The parameter belongs to the named project, not to this one.
    OtherProject(String),
    /// Delete the parameter with this id.
    Delete(String),
}

/// Decides `delete`: a parameter is deleted only from the project that defines it.
pub fn delete_decision(found: Option<&ParameterDetails>, proj_id: &str) -> (r: DeleteDecision)
    ensures
        match found {
            None => r == DeleteDecision::NotFound,
            Some(d) => if contains_text(d.project_url@, proj_id@) {
                r is Delete && r->Delete_0@ == d.id@
            } else {
                r is OtherProject && r->OtherProject_0@ == d.project_name@
            },
        },
{
    match found {
        None => DeleteDecision::NotFound,
        Some(d) => {
            if owned_by_project(d.project_url.as_str(), proj_id) {
                DeleteDecision::Delete(d.id.clone())
            } else {
                DeleteDecision::OtherProject(d.project_name.clone())
            }
        },
    }
}

} // verus!

verus! {

/// What one rule operation does.
#[derive(Clone, Copy, Debug, PartialEq, Eq, Structural)]
pub enum RuleAction {
    Delete,
    Create,
    Update,
}

/// The rule edit asked for one rule type: a new constraint, a removal, or both.
#[derive(Clone, Debug, PartialEq)]
pub struct RuleEdit {
    pub rule_type: ParameterRuleTypeEnum,
    pub constraint: Option<String>,
    pub delete: bool,
}

/// One rule operation to send to the service; `rule_id` is empty for a creation and
/// `constraint` empty for a deletion.
#[derive(Clone, Debug, PartialEq)]
pub struct RuleOp {
    pub action: RuleAction,
    pub rule_type: ParameterRuleTypeEnum,
    pub rule_id: String,
    pub constraint: String,
}

/// The parts of a rule operation.
pub open spec fn op_view(op: RuleOp) -> (RuleAction, ParameterRuleTypeEnum, Seq<char>, Seq<char>) {
    (op.action, op.rule_type, op.rule_id@, op.constraint@)
}

/// The position of the parameter's rule of type `t`, if it has one.
pub open spec fn existing_rule(rules: Seq<ParameterRule>, t: ParameterRuleTypeEnum) -> Option<nat> {
    rule_position(rules, t, rules.len())
}

/// The first phase: each asked removal of a rule the parameter has, in the order of the edits.
pub open spec fn deletions_for(rules: Seq<ParameterRule>, edits: Seq<RuleEdit>) -> Seq<
    (RuleAction, ParameterRuleTypeEnum, Seq<char>, Seq<char>),
>
    decreases edits.len(),
{
    if edits.len() == 0 {
        Seq::empty()
    } else {
        let s = deletions_for(rules, edits.drop_last());
        let e = edits.last();
        match existing_rule(rules, e.rule_type) {
            Some(i) => if e.delete {
                s.push((RuleAction::Delete, e.rule_type, rules[i as int].id@, Seq::empty()))
            } else {
                s
            },
            None => s,
        }
    }
}

/// The second phase: each new constraint, as an update of the rule the parameter has, or as a
/// creation where it has none or the first phase removed it.
pub open spec fn settings_for(rules: Seq<ParameterRule>, edits: Seq<RuleEdit>) -> Seq<
    (RuleAction, ParameterRuleTypeEnum, Seq<char>, Seq<char>),
>
    decreases edits.len(),
{
    if edits.len() == 0 {
        Seq::empty()
    } else {
        let s = settings_for(rules, edits.drop_last());
        let e = edits.last();
        match e.constraint {
            None => s,
            Some(c) => match existing_rule(rules, e.rule_type) {
                Some(i) => if e.delete {
                    s.push((RuleAction::Create, e.rule_type, Seq::empty(), c@))
                } else {
                    s.push((RuleAction::Update, e.rule_type, rules[i as int].id@, c@))
                },
                None => s.push((RuleAction::Create, e.rule_type, Seq::empty(), c@)),
            },
        }
    }
}

/// The removals asked by `edits`, for the rules `details` has.
pub fn plan_rule_deletions(details: &ParameterDetails, edits: &Vec<RuleEdit>) -> (r: Vec<RuleOp>)
    ensures
        r@.map_values(|o: RuleOp| op_view(o)) == deletions_for(details.rules@, edits@),
{
    let mut ops: Vec<RuleOp> = Vec::new();
    let mut k: usize = 0;
    while k < edits.len()
        invariant
            k <= edits@.len(),
            ops@.map_values(|o: RuleOp| op_view(o)) == deletions_for(
                details.rules@,
                edits@.take(k as int),
            ),
        decreases edits@.len() - k,
    {
        let ghost prev = ops@;
        let e = &edits[k];
        assert(edits@.take(k + 1).drop_last() =~= edits@.take(k as int));
        assert(edits@.take(k + 1).last() == edits@[k as int]);
        if e.delete {
            match details.get_rule_id(e.rule_type) {
                Some(id) => {
                    let op = RuleOp {
                        action: RuleAction::Delete,
                        rule_type: e.rule_type,
                        rule_id: id,
                        constraint: String::new(),
                    };
                    ops.push(op);
                    assert(ops@.map_values(|o: RuleOp| op_view(o)) =~= prev.map_values(
                        |o: RuleOp| op_view(o),
                    ).push(op_view(op)));
                },
                None => {},
            }
        }
        k = k + 1;
    }
    assert(edits@.take(k as int) =~= edits@);
    ops
}

/// The creations and updates asked by `edits`, for the rules `details` had before the removals.
pub fn plan_rule_settings(details: &ParameterDetails, edits: &Vec<RuleEdit>) -> (r: Vec<RuleOp>)
    ensures
        r@.map_values(|o: RuleOp| op_view(o)) == settings_for(details.rules@, edits@),
{
    let mut ops: Vec<RuleOp> = Vec::new();
    let mut k: usize = 0;
    while k < edits.len()
        invariant
            k <= edits@.len(),
            ops@.map_values(|o: RuleOp| op_view(o)) == settings_for(
                details.rules@,
                edits@.take(k as int),
            ),
        decreases edits@.len() - k,
    {
        let ghost prev = ops@;
        let e = &edits[k];
        assert(edits@.take(k + 1).drop_last() =~= edits@.take(k as int));
        assert(edits@.take(k + 1).last() == edits@[k as int]);
        match &e.constraint {
            Some(c) => {
                let existing = if e.delete {
                    None
                } else {
                    details.get_rule_id(e.rule_type)
                };
                let op = match existing {
                    Some(id) => RuleOp {
                        action: RuleAction::Update,
                        rule_type: e.rule_type,
                        rule_id: id,
                        constraint: c.clone(),
                    },
                    None => RuleOp {
                        action: RuleAction::Create,
                        rule_type: e.rule_type,
                        rule_id: String::new(),
                        constraint: c.clone(),
                    },
                };
                ops.push(op);
                assert(ops@.map_values(|o: RuleOp| op_view(o)) =~= prev.map_values(
                    |o: RuleOp| op_view(o),
                ).push(op_view(op)));
            },
            None => {},
        }
        k = k + 1;
    }
    assert(edits@.take(k as int) =~= edits@);
    ops
}

/// The number of rules of type `t` among the first `n`.
pub open spec fn type_count(rules: Seq<ParameterRule>, t: ParameterRuleTypeEnum, n: nat) -> nat
    decreases n,
{
    if n == 0 {
        0
    } else {
        type_count(rules, t, (n - 1) as nat) + if rules[n - 1]._type == t {
            1nat
        } else {
            0nat
        }
    }
}

/// The number of rules of type `t` after the operations `ops`, starting from `start`.
pub open spec fn count_after(
    start: int,
    ops: Seq<(RuleAction, ParameterRuleTypeEnum, Seq<char>, Seq<char>)>,
    t: ParameterRuleTypeEnum,
) -> int
    decreases ops.len(),
{
    if ops.len() == 0 {
        start
    } else {
        let c = count_after(start, ops.drop_last(), t);
        let o = ops.last();
        if o.1 != t {
            c
        } else {
            match o.0 {
                RuleAction::Delete => c - 1,
                RuleAction::Create => c + 1,
                RuleAction::Update => c,
            }
        }
    }
}

proof fn lemma_count_concat(
    start: int,
    a: Seq<(RuleAction, ParameterRuleTypeEnum, Seq<char>, Seq<char>)>,
    b: Seq<(RuleAction, ParameterRuleTypeEnum, Seq<char>, Seq<char>)>,
    t: ParameterRuleTypeEnum,
)
    ensures
        count_after(start, a + b, t) == count_after(count_after(start, a, t), b, t),
    decreases b.len(),
{
    if b.len() == 0 {
        assert(a + b =~= a);
    } else {
        lemma_count_concat(start, a, b.drop_last(), t);
        assert((a + b).drop_last() =~= a + b.drop_last());
        assert((a + b).last() == b.last());
    }
}

proof fn lemma_position_count(rules: Seq<ParameterRule>, t: ParameterRuleTypeEnum, n: nat)
    ensures
        rule_position(rules, t, n).is_none() <==> type_count(rules, t, n) == 0,
    decreases n,
{
    if n > 0 {
        lemma_position_count(rules, t, (n - 1) as nat);
    }
}

proof fn lemma_other_types(
    rules: Seq<ParameterRule>,
    edits: Seq<RuleEdit>,
    t: ParameterRuleTypeEnum,
    start: int,
)
    requires
        forall|j: int| 0 <= j < edits.len() ==> edits[j].rule_type != t,
    ensures
        count_after(start, deletions_for(rules, edits), t) == start,
        count_after(start, settings_for(rules, edits), t) == start,
    decreases edits.len(),
{
    if edits.len() > 0 {
        let init = edits.drop_last();
        assert forall|j: int| 0 <= j < init.len() implies init[j].rule_type != t by {
            assert(init[j] == edits[j]);
        }
        lemma_other_types(rules, init, t, start);
        lemma_last_step(rules, edits);
    }
}

proof fn lemma_last_step(rules: Seq<ParameterRule>, edits: Seq<RuleEdit>)
    requires
        edits.len() > 0,
    ensures
        ({
            let d = deletions_for(rules, edits);
            let di = deletions_for(rules, edits.drop_last());
            d == di || (d.len() == di.len() + 1 && d.drop_last() == di && d.last().1
                == edits.last().rule_type && d.last().0 == RuleAction::Delete)
        }),
        ({
            let d = settings_for(rules, edits);
            let di = settings_for(rules, edits.drop_last());
            d == di || (d.len() == di.len() + 1 && d.drop_last() == di && d.last().1
                == edits.last().rule_type && d.last().0 != RuleAction::Delete)
        }),
{
    let d = deletions_for(rules, edits);
    let di = deletions_for(rules, edits.drop_last());
    if d != di {
        assert(d.drop_last() =~= di);
    }
    let e = settings_for(rules, edits);
    let ei = settings_for(rules, edits.drop_last());
    if e != ei {
        assert(e.drop_last() =~= ei);
    }
}

proof fn lemma_edit_effect(
    rules: Seq<ParameterRule>,
    edits: Seq<RuleEdit>,
    k: int,
    start: int,
)
    requires
        0 <= k < edits.len(),
        forall|i: int, j: int|
            0 <= i < edits.len() && 0 <= j < edits.len() && i != j ==> edits[i].rule_type
                != edits[j].rule_type,
    ensures
        count_after(start, deletions_for(rules, edits), edits[k].rule_type) == start - (if edits[k].delete
            && existing_rule(rules, edits[k].rule_type).is_some() {
            1int
        } else {
            0int
        }),
        count_after(start, settings_for(rules, edits), edits[k].rule_type) == start + (if edits[k].constraint
            is Some && (edits[k].delete || existing_rule(rules, edits[k].rule_type).is_none()) {
            1int
        } else {
            0int
        }),
    decreases edits.len(),
{
    let t = edits[k].rule_type;
    let init = edits.drop_last();
    lemma_last_step(rules, edits);
    if k < edits.len() - 1 {
        assert(init[k] == edits[k]);
        assert(edits[edits.len() - 1].rule_type != t);
        lemma_edit_effect(rules, init, k, start);
    } else {
        assert forall|j: int| 0 <= j < init.len() implies init[j].rule_type != t by {
            assert(init[j] == edits[j]);
        }
        lemma_other_types(rules, init, t, start);
    }
}

/// Rule uniqueness: when the parameter holds at most one rule of a type and a constraint of
/// that type is asked (each type edited once), the two phases leave exactly one rule of it.
pub proof fn lemma_rule_uniqueness(rules: Seq<ParameterRule>, edits: Seq<RuleEdit>, k: int)
    requires
        0 <= k < edits.len(),
        edits[k].constraint is Some,
        forall|i: int, j: int|
            0 <= i < edits.len() && 0 <= j < edits.len() && i != j ==> edits[i].rule_type
                != edits[j].rule_type,
        type_count(rules, edits[k].rule_type, rules.len()) <= 1,
    ensures
        count_after(
            type_count(rules, edits[k].rule_type, rules.len()) as int,
            deletions_for(rules, edits) + settings_for(rules, edits),
            edits[k].rule_type,
        ) == 1,
{
    let t = edits[k].rule_type;
    let start = type_count(rules, t, rules.len()) as int;
    lemma_position_count(rules, t, rules.len());
    lemma_count_concat(start, deletions_for(rules, edits), settings_for(rules, edits), t);
    let mid = count_after(start, deletions_for(rules, edits), t);
    lemma_edit_effect(rules, edits, k, start);
    lemma_edit_effect(rules, edits, k, mid);
}

/// The phase of `set` in which a call to the service failed.
#[derive(Clone, Copy, Debug, PartialEq, Eq, Structural)]
pub enum SetPhase {
    RuleDeletions,
    RuleSettings,
    ValueWrite,
}

/// What follows a failure: whether the parameter created by this command is deleted again,
/// and the exit code (none where the failure itself is reported).
#[derive(Clone, Copy, Debug, PartialEq, Eq, Structural)]
pub struct FailurePlan {
    pub delete_parameter: bool,
    pub exit_code: Option<i32>,
}

/// Rollback on failure: a parameter created by this `set` is deleted again whenever a later
/// rule or value operation fails, so no half-configured parameter is left behind.
pub fn failure_plan(param_added: bool, phase: SetPhase) -> (r: FailurePlan)
    ensures
        r.delete_parameter == param_added,
        r.exit_code == match phase {
            SetPhase::RuleDeletions => Some(SetError::RuleDeleteFailed.code()),
            SetPhase::RuleSettings => Some(SetError::RuleSetFailed.code()),
            SetPhase::ValueWrite => None::<i32>,
        },
{
    let exit_code = match phase {
        SetPhase::RuleDeletions => Some(SetError::RuleDeleteFailed.exit_code()),
        SetPhase::RuleSettings => Some(SetError::RuleSetFailed.exit_code()),
        SetPhase::ValueWrite => None,
    };
    FailurePlan { delete_parameter: param_added, exit_code }
}

} // verus!

verus! {

/// The change asked for one rule type.
#[derive(Clone, Debug, PartialEq)]
pub struct RuleChange {
    pub constraint: Option<String>,
    pub delete: bool,
}

/// The rule changes of one `set`, one per rule type.
#[derive(Clone, Debug, PartialEq)]
pub struct RuleEdits {
    pub max: RuleChange,
    pub min: RuleChange,
    pub max_len: RuleChange,
    pub min_len: RuleChange,
    pub regex: RuleChange,
}

/// The change asked for rule type `t`.
pub open spec fn change_of(e: RuleEdits, t: ParameterRuleTypeEnum) -> RuleChange {
    match t {
        ParameterRuleTypeEnum::Max => e.max,
        ParameterRuleTypeEnum::Min => e.min,
        ParameterRuleTypeEnum::MaxLen => e.max_len,
        ParameterRuleTypeEnum::MinLen => e.min_len,
        ParameterRuleTypeEnum::Regex => e.regex,
    }
}

/// The rule types in the order their edits are applied.
pub open spec fn rule_types() -> Seq<ParameterRuleTypeEnum> {
    seq![
        ParameterRuleTypeEnum::Max,
        ParameterRuleTypeEnum::Min,
        ParameterRuleTypeEnum::MaxLen,
        ParameterRuleTypeEnum::MinLen,
        ParameterRuleTypeEnum::Regex,
    ]
}

/// The edits of a `set`, one per rule type, in the order of `rule_types`.
pub open spec fn edit_seq(e: RuleEdits) -> Seq<RuleEdit> {
    rule_types().map_values(
        |t: ParameterRuleTypeEnum|
            RuleEdit { rule_type: t, constraint: change_of(e, t).constraint, delete: change_of(e, t).delete },
    )
}

fn edit_for(t: ParameterRuleTypeEnum, c: RuleChange) -> (r: RuleEdit)
    ensures
        r == (RuleEdit { rule_type: t, constraint: c.constraint, delete: c.delete }),
{
    RuleEdit { rule_type: t, constraint: c.constraint, delete: c.delete }
}

/// The edits of a `set` as a list, one per rule type.
pub fn rule_edit_list(e: RuleEdits) -> (r: Vec<RuleEdit>)
    ensures
        r@ == edit_seq(e),
{
    let ghost g = e;
    let mut v: Vec<RuleEdit> = Vec::new();
    v.push(edit_for(ParameterRuleTypeEnum::Max, e.max));
    v.push(edit_for(ParameterRuleTypeEnum::Min, e.min));
    v.push(edit_for(ParameterRuleTypeEnum::MaxLen, e.max_len));
    v.push(edit_for(ParameterRuleTypeEnum::MinLen, e.min_len));
    v.push(edit_for(ParameterRuleTypeEnum::Regex, e.regex));
    assert(v@ =~= edit_seq(g));
    v
}

/// The constraint of the rule of type `t` after the operations `ops`, starting from `start`
/// (`None` while there is no such rule).
pub open spec fn constraint_after(
    start: Option<Seq<char>>,
    ops: Seq<(RuleAction, ParameterRuleTypeEnum, Seq<char>, Seq<char>)>,
    t: ParameterRuleTypeEnum,
) -> Option<Seq<char>>
    decreases ops.len(),
{
    if ops.len() == 0 {
        start
    } else {
        let c = constraint_after(start, ops.drop_last(), t);
        let o = ops.last();
        if o.1 != t {
            c
        } else {
            match o.0 {
                RuleAction::Delete => None,
                _ => Some(o.3),
            }
        }
    }
}

/// The constraint of the parameter's rule of type `t`, if it has one.
pub open spec fn existing_constraint(rules: Seq<ParameterRule>, t: ParameterRuleTypeEnum) -> Option<
    Seq<char>,
> {
    match existing_rule(rules, t) {
        Some(i) => Some(rules[i as int].constraint@),
        None => None,
    }
}

proof fn lemma_constraint_concat(
    start: Option<Seq<char>>,
    a: Seq<(RuleAction, ParameterRuleTypeEnum, Seq<char>, Seq<char>)>,
    b: Seq<(RuleAction, ParameterRuleTypeEnum, Seq<char>, Seq<char>)>,
    t: ParameterRuleTypeEnum,
)
    ensures
        constraint_after(start, a + b, t) == constraint_after(constraint_after(start, a, t), b, t),
    decreases b.len(),
{
    if b.len() == 0 {
        assert(a + b =~= a);
    } else {
        lemma_constraint_concat(start, a, b.drop_last(), t);
        assert((a + b).drop_last() =~= a + b.drop_last());
        assert((a + b).last() == b.last());
    }
}

proof fn lemma_settings_constraint(
    rules: Seq<ParameterRule>,
    edits: Seq<RuleEdit>,
    k: int,
    start: Option<Seq<char>>,
)
    requires
        0 <= k < edits.len(),
        edits[k].constraint is Some,
        forall|i: int, j: int|
            0 <= i < edits.len() && 0 <= j < edits.len() && i != j ==> edits[i].rule_type
                != edits[j].rule_type,
    ensures
        constraint_after(start, settings_for(rules, edits), edits[k].rule_type) == Some(
            edits[k].constraint.unwrap()@,
        ),
    decreases edits.len(),
{
    let t = edits[k].rule_type;
    let init = edits.drop_last();
    let d = settings_for(rules, edits);
    let di = settings_for(rules, init);
    if d != di {
        assert(d.drop_last() =~= di);
    }
    if k < edits.len() - 1 {
        assert(init[k] == edits[k]);
        assert(edits[edits.len() - 1].rule_type != t);
        lemma_settings_constraint(rules, init, k, start);
    } else {
        assert(d.drop_last() =~= di);
    }
}

/// Rule uniqueness: a parameter holds at most one rule of each type; after a `set` that asks a
/// constraint for type `t`, the removals and settings leave exactly one rule of that type, and
/// its constraint is the one asked.
pub proof fn lemma_set_leaves_one_rule(rules: Seq<ParameterRule>, e: RuleEdits, t: ParameterRuleTypeEnum)
    requires
        type_count(rules, t, rules.len()) <= 1,
        change_of(e, t).constraint is Some,
    ensures
        ({
            let edits = edit_seq(e);
            let ops = deletions_for(rules, edits) + settings_for(rules, edits);
            &&& count_after(type_count(rules, t, rules.len()) as int, ops, t) == 1
            &&& constraint_after(existing_constraint(rules, t), ops, t) == Some(
                change_of(e, t).constraint.unwrap()@,
            )
        }),
{
    let edits = edit_seq(e);
    let k: int = match t {
        ParameterRuleTypeEnum::Max => 0,
        ParameterRuleTypeEnum::Min => 1,
        ParameterRuleTypeEnum::MaxLen => 2,
        ParameterRuleTypeEnum::MinLen => 3,
        ParameterRuleTypeEnum::Regex => 4,
    };
    assert(edits[k].rule_type == t);
    assert forall|i: int, j: int|
        0 <= i < edits.len() && 0 <= j < edits.len() && i != j implies edits[i].rule_type
        != edits[j].rule_type by {
        assert(edits[i].rule_type == rule_types()[i]);
        assert(edits[j].rule_type == rule_types()[j]);
    }
    lemma_rule_uniqueness(rules, edits, k);
    let d = deletions_for(rules, edits);
    let s = settings_for(rules, edits);
    lemma_constraint_concat(existing_constraint(rules, t), d, s, t);
    lemma_settings_constraint(rules, edits, k, constraint_after(existing_constraint(rules, t), d, t));
}

} // verus!
