use cloudtruth::details::ParameterDetails;
use cloudtruth::diff::{diff_parameters, diff_sides, DiffPlanError};
use cloudtruth::models::{Parameter, Value};
use cloudtruth::resolver::NameMap;

fn env_names() -> NameMap {
    let mut m = NameMap::new();
    for e in ["default", "dev", "prod"] {
        m.insert(format!("https://api/env/{}/", e), e.to_string());
    }
    m
}


fn details(name: &str, env: &str, v: &str, err: Option<&str>) -> ParameterDetails {
    let env_url = format!("https://api/env/{}/", env);
    let value = Value {
        url: "u".to_string(),
        id: "v".to_string(),
        environment: env_url.clone(),
        environment_name: env.to_string(),
        parameter: "p".to_string(),
        external: false,
        external_fqn: None,
        external_filter: None,
        external_error: err.map(|e| e.to_string()),
        internal_value: Some(v.to_string()),
        value: Some(v.to_string()),
        evaluated: false,
        created_at: String::new(),
        modified_at: String::new(),
    };
    let p = Parameter::new(
        "u".to_string(),
        "id".to_string(),
        name.to_string(),
        vec![],
        "proj".to_string(),
        "proj".to_string(),
        vec![],
        vec![],
        vec![(env_url.clone(), Some(value))],
        None,
        String::new(),
        String::new(),
    );
    ParameterDetails::from_parameter(p, &env_url, &vec![], &env_names(), true)
}

fn strings(v: &[&str]) -> Vec<String> {
    v.iter().map(|s| s.to_string()).collect()
}

#[test]
fn two_environments_one_differing_row() {
    let dev = vec![details("DB_HOST", "dev", "localhost", None), details("SAME", "dev", "x", None)];
    let prod = vec![details("DB_HOST", "prod", "db.prod", None), details("SAME", "prod", "x", None)];
    let report = diff_parameters(&dev, &prod, &strings(&["value", "secret"]));
    assert_eq!(report.rows.len(), 1);
    assert_eq!(report.rows[0].name, "DB_HOST");
    assert_eq!(report.rows[0].left, "localhost,\nfalse");
    assert_eq!(report.rows[0].right, "db.prod,\nfalse");
    assert!(report.errors.is_empty());
}

#[test]
fn missing_side_projects_to_empty() {
    let left = vec![details("ONLY_LEFT", "dev", "a", None)];
    let right: Vec<ParameterDetails> = vec![details("only_right", "prod", "b", None)];
    let report = diff_parameters(&left, &right, &strings(&["value"]));
    let names: Vec<String> = report.rows.iter().map(|r| r.name.clone()).collect();
    assert_eq!(names, strings(&["ONLY_LEFT", "only_right"]));
    assert_eq!(report.rows[0].right, "");
    assert_eq!(report.rows[1].left, "");
}

#[test]
fn rows_sorted_without_case() {
    let left = vec![details("b", "dev", "1", None), details("A", "dev", "1", None), details("c", "dev", "1", None)];
    let right: Vec<ParameterDetails> = vec![];
    let report = diff_parameters(&left, &right, &strings(&["value"]));
    let names: Vec<String> = report.rows.iter().map(|r| r.name.clone()).collect();
    assert_eq!(names, strings(&["A", "b", "c"]));
}

#[test]
fn equal_sides_give_no_rows() {
    let left = vec![details("X", "dev", "1", None)];
    let right = vec![details("X", "prod", "1", None)];
    let report = diff_parameters(&left, &right, &strings(&["value"]));
    assert!(report.rows.is_empty());
    let report = diff_parameters(&left, &right, &strings(&["value", "environment"]));
    assert_eq!(report.rows.len(), 1);
}

#[test]
fn errors_gathered_once_when_equal() {
    let left = vec![details("X", "dev", "1", Some("bad"))];
    let right = vec![details("X", "prod", "1", Some("bad"))];
    let report = diff_parameters(&left, &right, &strings(&["value"]));
    assert_eq!(report.errors, strings(&["   X: bad"]));
    let right = vec![details("X", "prod", "1", Some("worse"))];
    let report = diff_parameters(&left, &right, &strings(&["value"]));
    assert_eq!(report.errors, strings(&["   X: bad", "   X: worse"]));
}

#[test]
fn sides_from_two_environments() {
    let s = diff_sides("default", &strings(&["dev", "prod"]), &vec![]).unwrap();
    assert_eq!((s.env1.as_str(), s.env2.as_str()), ("dev", "prod"));
    assert_eq!((s.header1.as_str(), s.header2.as_str()), ("dev", "prod"));
    assert_eq!(s.as_of1, None);
}

#[test]
fn sides_from_one_environment() {
    let s = diff_sides("default", &strings(&["prod"]), &vec![]).unwrap();
    assert_eq!((s.env1.as_str(), s.env2.as_str()), ("default", "prod"));
}

#[test]
fn sides_same_environment_two_times() {
    let s = diff_sides("dev", &vec![], &strings(&["2021-01-01"])).unwrap();
    assert_eq!(s.as_of1, None);
    assert_eq!(s.as_of2, Some("2021-01-01".to_string()));
    assert_eq!((s.header1.as_str(), s.header2.as_str()), ("Current", "2021-01-01"));
    let s = diff_sides("dev", &vec![], &strings(&["t1", "t2"])).unwrap();
    assert_eq!((s.header1.as_str(), s.header2.as_str()), ("t1", "t2"));
}

#[test]
fn sides_different_environments_and_times() {
    let s = diff_sides("dev", &strings(&["prod"]), &strings(&["t2"])).unwrap();
    assert_eq!((s.header1.as_str(), s.header2.as_str()), ("dev", "prod (t2)"));
}

#[test]
fn sides_errors() {
    assert_eq!(
        diff_sides("dev", &strings(&["a", "b", "c"]), &vec![]),
        Err(DiffPlanError::TooManyEnvironments)
    );
    assert_eq!(
        diff_sides("dev", &vec![], &strings(&["a", "b", "c"])),
        Err(DiffPlanError::TooManyTimes)
    );
    assert_eq!(diff_sides("dev", &vec![], &vec![]), Err(DiffPlanError::SelfComparison));
    assert_eq!(
        diff_sides("dev", &strings(&["dev"]), &vec![]),
        Err(DiffPlanError::SelfComparison)
    );
}
