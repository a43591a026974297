use cloudtruth::details::{ParameterDetails, REDACTED};
use cloudtruth::models::{Parameter, ParameterRule, ParameterRuleTypeEnum, Value};
use cloudtruth::resolver::NameMap;

fn env_names() -> NameMap {
    let mut m = NameMap::new();
    for e in ["default", "dev", "prod"] {
        m.insert(format!("https://api/env/{}/", e), e.to_string());
    }
    m
}


fn value(env: &str, v: &str) -> Value {
    Value {
        url: format!("https://api/value/{}/", env),
        id: format!("val-{}", env),
        environment: format!("https://api/env/{}/", env),
        environment_name: env.to_string(),
        parameter: "https://api/param/1/".to_string(),
        external: false,
        external_fqn: None,
        external_filter: None,
        external_error: None,
        internal_value: Some(v.to_string()),
        value: Some(v.to_string()),
        evaluated: false,
        created_at: "c".to_string(),
        modified_at: "m".to_string(),
    }
}

fn url(env: &str) -> String {
    format!("https://api/env/{}/", env)
}

fn param(name: &str, values: Vec<(String, Option<Value>)>, rules: Vec<ParameterRule>) -> Parameter {
    Parameter::new(
        "https://api/param/1/".to_string(),
        "p1".to_string(),
        name.to_string(),
        rules,
        "https://api/project/proj-1/".to_string(),
        "proj".to_string(),
        vec![],
        vec![],
        values,
        None,
        "pc".to_string(),
        "pm".to_string(),
    )
}

#[test]
fn direct_value_is_override() {
    let p = param("DB_HOST", vec![(url("dev"), Some(value("dev", "localhost")))], vec![]);
    let d = ParameterDetails::from_parameter(p, &url("dev"), &vec![url("default")], &env_names(), true);
    assert!(d._override);
    assert_eq!(d.value, "localhost");
    assert_eq!(d.env_name, "dev");
}

#[test]
fn inherited_value_is_not_override() {
    let p = param(
        "DB_HOST",
        vec![(url("dev"), None), (url("default"), Some(value("default", "base")))],
        vec![],
    );
    let d = ParameterDetails::from_parameter(p, &url("dev"), &vec![url("default")], &env_names(), true);
    assert!(!d._override);
    assert_eq!(d.value, "base");
    assert_eq!(d.env_url, url("default"));
    assert_eq!(d.get_property("environment"), "default");
}

#[test]
fn flowed_in_record_under_own_key_is_not_override() {
    let p = param("DB_HOST", vec![(url("dev"), Some(value("default", "base")))], vec![]);
    let d = ParameterDetails::from_parameter(p, &url("dev"), &vec![], &env_names(), true);
    assert!(!d._override);
    assert_eq!(d.value, "base");
}

#[test]
fn unset_value_shows_dash() {
    let p = param("EMPTY", vec![], vec![]);
    let d = ParameterDetails::from_parameter(p, &url("dev"), &vec![url("default")], &env_names(), true);
    assert_eq!(d.value, "-");
    assert!(!d._override);
    assert_eq!(d.val_id, "");
}

#[test]
fn secret_masked_unless_asked() {
    let mut p = param("DB_PASS", vec![(url("default"), Some(value("default", "s3cret")))], vec![]);
    p.secret = Some(true);
    let masked = ParameterDetails::from_parameter(p.clone(), &url("default"), &vec![], &env_names(), true);
    assert_eq!(masked.value, REDACTED);
    assert_eq!(masked.value, "*****");
    let shown = ParameterDetails::from_parameter(p, &url("default"), &vec![], &env_names(), false);
    assert_eq!(shown.value, "s3cret");
}

#[test]
fn error_copied_from_value() {
    let mut v = value("default", "");
    v.external_error = Some("fqn unreachable".to_string());
    let p = param("EXT", vec![(url("default"), Some(v))], vec![]);
    let d = ParameterDetails::from_parameter(p, &url("default"), &vec![], &env_names(), false);
    assert_eq!(d.error, "fqn unreachable");
}

#[test]
fn property_vocabulary() {
    let rule = ParameterRule {
        url: "r".to_string(),
        id: "rule-1".to_string(),
        parameter: "p".to_string(),
        _type: ParameterRuleTypeEnum::Max,
        constraint: "10".to_string(),
        created_at: "rc".to_string(),
        modified_at: "rm".to_string(),
    };
    let mut p = param("N", vec![(url("default"), Some(value("default", "7")))], vec![rule]);
    p.description = Some("a number".to_string());
    p._type = Some("integer".to_string());
    let d = ParameterDetails::from_parameter(p, &url("default"), &vec![], &env_names(), false);
    assert_eq!(d.get_property("name"), "N");
    assert_eq!(d.get_property("value"), "7");
    assert_eq!(d.get_property("raw"), "7");
    assert_eq!(d.get_property("type"), "integer");
    assert_eq!(d.get_property("rule-count"), "1");
    assert_eq!(d.get_property("environment"), "default");
    assert_eq!(d.get_property("secret"), "false");
    assert_eq!(d.get_property("scope"), "internal");
    assert_eq!(d.get_property("description"), "a number");
    assert_eq!(d.get_property("project-name"), "proj");
    assert_eq!(d.get_property("created-at"), "pc");
    assert_eq!(d.get_property("modified-at"), "pm");
    assert_eq!(d.get_property("fqn"), "");
    assert_eq!(d.get_property("bogus"), "");
    assert_eq!(
        d.get_properties(&vec!["name".to_string(), "value".to_string()]),
        vec!["N".to_string(), "7".to_string()]
    );
    assert_eq!(d.get_rule_id(ParameterRuleTypeEnum::Max), Some("rule-1".to_string()));
    assert_eq!(d.get_rule_id(ParameterRuleTypeEnum::Regex), None);
}

#[test]
fn source_environment_named_by_url() {
    let mut v = value("default", "base");
    v.environment_name = "stale-name".to_string();
    let p = param("DB_HOST", vec![(url("default"), Some(v))], vec![]);
    let d = ParameterDetails::from_parameter(p, &url("dev"), &vec![url("default")], &env_names(), true);
    assert_eq!(d.env_name, "default");
    let mut v = value("gone", "x");
    v.environment = "https://api/env/gone/".to_string();
    let p = param("DB_HOST", vec![(url("dev"), Some(v))], vec![]);
    let d = ParameterDetails::from_parameter(p, &url("dev"), &vec![], &env_names(), true);
    assert_eq!(d.env_name, "");
}
