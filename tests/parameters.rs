use cloudtruth::details::ParameterDetails;
use cloudtruth::listing::{
    filter_details, include_values, list_columns, list_view, retain_from_project, rule_rows,
    show_values, shown_in_environment_view, ListFlags, ListView,
};
use cloudtruth::models::{Parameter, ParameterRule, ParameterRuleTypeEnum};
use cloudtruth::parameters::{
    check_value_sources, delete_decision, failure_plan, owned_by_project, param_type_from,
    plan_rule_deletions, plan_rule_settings, set_transition, true_false_option,
    rule_edit_list, value_in_environment, DeleteDecision, ParamType, RuleAction, RuleChange, RuleEdit,
    RuleEdits, SetError, SetPhase,
};
use cloudtruth::resolver::NameMap;

fn env_names() -> NameMap {
    let mut m = NameMap::new();
    for e in ["default", "dev", "prod"] {
        m.insert(format!("https://api/env/{}/", e), e.to_string());
    }
    m
}


fn rule(t: ParameterRuleTypeEnum, id: &str, c: &str) -> ParameterRule {
    ParameterRule {
        url: String::new(),
        id: id.to_string(),
        parameter: String::new(),
        _type: t,
        constraint: c.to_string(),
        created_at: "rc".to_string(),
        modified_at: "rm".to_string(),
    }
}

fn details_with(rules: Vec<ParameterRule>, project: &str) -> ParameterDetails {
    let p = Parameter::new(
        "u".to_string(),
        "param-id".to_string(),
        "KEY".to_string(),
        rules,
        project.to_string(),
        "owner-proj".to_string(),
        vec![],
        vec![],
        vec![],
        None,
        String::new(),
        String::new(),
    );
    ParameterDetails::from_parameter(p, &"env".to_string(), &vec![], &env_names(), true)
}

fn edits(max: Option<&str>, no_max: bool, min_len: Option<&str>, regex: Option<&str>) -> Vec<RuleEdit> {
    vec![
        RuleEdit { rule_type: ParameterRuleTypeEnum::Max, constraint: max.map(String::from), delete: no_max },
        RuleEdit { rule_type: ParameterRuleTypeEnum::Min, constraint: None, delete: false },
        RuleEdit { rule_type: ParameterRuleTypeEnum::MaxLen, constraint: None, delete: false },
        RuleEdit { rule_type: ParameterRuleTypeEnum::MinLen, constraint: min_len.map(String::from), delete: false },
        RuleEdit { rule_type: ParameterRuleTypeEnum::Regex, constraint: regex.map(String::from), delete: false },
    ]
}

#[test]
fn value_and_fqn_conflict() {
    let r = check_value_sources(true, false, false, true, false);
    assert_eq!(r, Err(SetError::ConflictingSources));
    assert_eq!(r.unwrap_err().exit_code(), 7);
    assert_eq!(check_value_sources(false, true, false, false, true), Err(SetError::ConflictingSources));
    assert_eq!(check_value_sources(true, false, false, false, false), Ok(()));
    assert_eq!(check_value_sources(false, false, false, true, true), Ok(()));
}

#[test]
fn new_rules_are_created() {
    let d = details_with(vec![], "p");
    let e = edits(None, false, Some("8"), Some("^[A-Za-z0-9]+$"));
    assert!(plan_rule_deletions(&d, &e).is_empty());
    let ops = plan_rule_settings(&d, &e);
    assert_eq!(ops.len(), 2);
    assert_eq!(ops[0].action, RuleAction::Create);
    assert_eq!(ops[0].rule_type, ParameterRuleTypeEnum::MinLen);
    assert_eq!(ops[0].constraint, "8");
    assert_eq!(ops[1].action, RuleAction::Create);
    assert_eq!(ops[1].rule_type, ParameterRuleTypeEnum::Regex);
    assert_eq!(ops[1].constraint, "^[A-Za-z0-9]+$");
}

#[test]
fn existing_rule_is_updated() {
    let d = details_with(vec![rule(ParameterRuleTypeEnum::Max, "r-max", "5")], "p");
    let e = edits(Some("10"), false, None, None);
    assert!(plan_rule_deletions(&d, &e).is_empty());
    let ops = plan_rule_settings(&d, &e);
    assert_eq!(ops.len(), 1);
    assert_eq!(ops[0].action, RuleAction::Update);
    assert_eq!(ops[0].rule_id, "r-max");
    assert_eq!(ops[0].constraint, "10");
}

#[test]
fn deleted_then_set_rule_is_recreated() {
    let d = details_with(vec![rule(ParameterRuleTypeEnum::Max, "r-max", "5")], "p");
    let e = edits(Some("10"), true, None, None);
    let dels = plan_rule_deletions(&d, &e);
    assert_eq!(dels.len(), 1);
    assert_eq!(dels[0].action, RuleAction::Delete);
    assert_eq!(dels[0].rule_id, "r-max");
    let ops = plan_rule_settings(&d, &e);
    assert_eq!(ops.len(), 1);
    assert_eq!(ops[0].action, RuleAction::Create);
}

#[test]
fn deleting_missing_rule_does_nothing() {
    let d = details_with(vec![], "p");
    let e = edits(None, true, None, None);
    assert!(plan_rule_deletions(&d, &e).is_empty());
}

#[test]
fn failures_roll_back_new_parameter() {
    let f = failure_plan(true, SetPhase::RuleDeletions);
    assert!(f.delete_parameter);
    assert_eq!(f.exit_code, Some(11));
    let f = failure_plan(true, SetPhase::RuleSettings);
    assert!(f.delete_parameter);
    assert_eq!(f.exit_code, Some(12));
    let f = failure_plan(true, SetPhase::ValueWrite);
    assert!(f.delete_parameter);
    assert_eq!(f.exit_code, None);
    assert!(!failure_plan(false, SetPhase::RuleSettings).delete_parameter);
}

#[test]
fn set_transitions() {
    let p = set_transition(false, false, true, true);
    assert!(p.create_parameter && !p.update_parameter && p.create_value && !p.update_value);
    let p = set_transition(true, false, false, true);
    assert!(!p.create_parameter && !p.update_parameter && p.create_value && !p.update_value);
    let p = set_transition(true, true, true, true);
    assert!(!p.create_parameter && p.update_parameter && !p.create_value && p.update_value);
    let p = set_transition(true, true, false, false);
    assert!(!p.create_parameter && !p.update_parameter && !p.create_value && !p.update_value);
}

#[test]
fn ownership_and_delete() {
    assert!(owned_by_project("https://api/project/proj-1/", "proj-1"));
    assert!(!owned_by_project("https://api/project/proj-2/", "proj-1"));
    let d = details_with(vec![], "https://api/project/proj-1/");
    assert_eq!(delete_decision(Some(&d), "proj-1"), DeleteDecision::Delete("param-id".to_string()));
    assert_eq!(
        delete_decision(Some(&d), "proj-9"),
        DeleteDecision::OtherProject("owner-proj".to_string())
    );
    assert_eq!(delete_decision(None, "proj-1"), DeleteDecision::NotFound);
    assert_eq!(SetError::DeleteInOtherProject.exit_code(), 24);
    assert_eq!(SetError::SetInOtherProject.exit_code(), 20);
    assert!(!value_in_environment(&d, "env-1"));
}

#[test]
fn option_words() {
    assert_eq!(true_false_option(Some("true")), Some(true));
    assert_eq!(true_false_option(Some("false")), Some(false));
    assert_eq!(true_false_option(Some("yes")), None);
    assert_eq!(true_false_option(None), None);
    assert_eq!(param_type_from("integer"), Some(ParamType::Integer));
    assert_eq!(param_type_from("bool"), Some(ParamType::Bool));
    assert_eq!(param_type_from("string"), Some(ParamType::String));
    assert_eq!(param_type_from("float"), None);
}

#[test]
fn listing_views() {
    let none = ListFlags { rules: false, external: false, evaluated: false, parents: false, children: false };
    assert_eq!(list_view(none), (ListView::All, false));
    let two = ListFlags { rules: false, external: true, evaluated: false, parents: true, children: false };
    assert_eq!(list_view(two), (ListView::External, true));
    assert!(show_values(false, false, false, true));
    assert!(!show_values(false, false, false, false));
    assert!(!include_values(true, ListView::Rules));
    assert!(include_values(false, ListView::External));
    let (h, p) = list_columns(ListView::Evaluated, true);
    assert_eq!(h, vec!["Name", "Value", "Raw", "Created At", "Modified At"]);
    assert_eq!(p, vec!["name", "value", "raw", "created-at", "modified-at"]);
}

#[test]
fn parent_and_child_filters() {
    let own = details_with(vec![], "https://api/project/proj-1/");
    let parent = details_with(vec![rule(ParameterRuleTypeEnum::Min, "r", "1")], "https://api/project/base/");
    let kept = filter_details(vec![own.clone(), parent.clone()], ListView::Parents, "proj-1");
    assert_eq!(kept.len(), 1);
    assert_eq!(kept[0].project_url, "https://api/project/base/");
    let mine = retain_from_project(vec![own.clone(), parent.clone()], "proj-1");
    assert_eq!(mine.len(), 1);
    assert_eq!(mine[0].project_url, "https://api/project/proj-1/");
    let with_rules = filter_details(vec![own, parent.clone()], ListView::Rules, "proj-1");
    assert_eq!(with_rules.len(), 1);
    let rows = rule_rows(&with_rules, false);
    assert_eq!(rows, vec![vec!["KEY", "", "min", "1"]]);
}

#[test]
fn environment_view_rows() {
    let unset = details_with(vec![], "p");
    assert_eq!(unset.value, "-");
    assert!(!shown_in_environment_view(false, &unset));
    assert!(shown_in_environment_view(true, &unset));
    let mut external = unset.clone();
    external.fqn = "aws://x".to_string();
    assert!(shown_in_environment_view(false, &external));
}

#[test]
fn max_rule_set_twice_stays_single() {
    let none = || RuleChange { constraint: None, delete: false };
    let edits = rule_edit_list(RuleEdits {
        max: RuleChange { constraint: Some("20".to_string()), delete: false },
        min: none(),
        max_len: none(),
        min_len: none(),
        regex: none(),
    });
    assert_eq!(edits.len(), 5);
    assert_eq!(edits[0].rule_type, ParameterRuleTypeEnum::Max);
    assert_eq!(edits[4].rule_type, ParameterRuleTypeEnum::Regex);
    let d = details_with(vec![rule(ParameterRuleTypeEnum::Max, "r-max", "10")], "p");
    assert!(plan_rule_deletions(&d, &edits).is_empty());
    let ops = plan_rule_settings(&d, &edits);
    assert_eq!(ops.len(), 1);
    assert_eq!(ops[0].action, RuleAction::Update);
    assert_eq!(ops[0].rule_id, "r-max");
    assert_eq!(ops[0].constraint, "20");
}
