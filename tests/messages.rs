use cloudtruth::audit::{
    bad_time_arg, check_parameter_scope, no_entries_message, resolve_object_type,
    unrecognized_type_help, AuditArgError,
};
use cloudtruth::cli::{
    confirm_choices, confirm_step, environment_tag_validator, get_api_access_url, i32_validator,
    ApplicationError, ConfirmStep, StringWriter,
};
use cloudtruth::messages::{
    binary_name, error_no_environment_message, format_param_error, invalid_time_format,
    template_eval_errors, warn_login_done, warn_missing_subcommand, warn_unresolved_params,
    warn_user, TemplateError, TemplateLookupFailure,
};
use cloudtruth::models::NodeTypeEnum;
use cloudtruth::table::{Table, TableError};

#[test]
fn message_texts() {
    assert_eq!(format_param_error("KEY", "broken"), "   KEY: broken");
    assert_eq!(warn_user("careful".to_string()), "WARN: careful");
    assert_eq!(warn_missing_subcommand("parameters"), "WARN: No 'parameters' sub-command executed.");
    assert_eq!(
        error_no_environment_message("qa"),
        "The 'qa' environment could not be found in your account."
    );
    assert_eq!(invalid_time_format("--before"), "Invalid '--before' value");
    assert_eq!(warn_login_done("no API key provided"), "Login not performed: no API key provided");
    assert_eq!(binary_name(), "cloudtruth");
}

#[test]
fn unresolved_parameters_warning() {
    assert_eq!(warn_unresolved_params(&vec![]), None);
    assert_eq!(
        warn_unresolved_params(&vec!["   A: x".to_string(), "   B: y".to_string()]),
        Some("Errors resolving parameters:\n   A: x\n   B: y\n".to_string())
    );
}

#[test]
fn template_error_texts() {
    assert_eq!(template_eval_errors(&vec![]), "\n  No details available");
    let failures = vec![
        TemplateLookupFailure { parameter_name: "a".to_string(), error_detail: "missing".to_string() },
        TemplateLookupFailure { parameter_name: "b".to_string(), error_detail: "secret".to_string() },
    ];
    assert_eq!(template_eval_errors(&failures), "\n  a: missing\n  b: secret");
    assert_eq!(
        TemplateError::EvaluateFailed(failures).message(),
        "Evaluation failed:\n  a: missing\n  b: secret"
    );
    assert_eq!(
        TemplateError::NotFound("t".to_string(), "p".to_string()).message(),
        "No template 't' found in project 'p'"
    );
    assert_eq!(
        TemplateError::EnvironmentMissing("e".to_string(), " at tag".to_string()).message(),
        "Did not find environment 'e' at tag"
    );
    assert_eq!(TemplateError::Authentication("no".to_string()).message(), "Not Authenticated: no");
}

#[test]
fn api_access_urls() {
    assert_eq!(
        get_api_access_url("https://localhost:8000/"),
        Ok("https://localhost:7000/organization/api".to_string())
    );
    assert_eq!(
        get_api_access_url("https://api.cloudtruth.io"),
        Ok("https://app.cloudtruth.io/organization/api".to_string())
    );
    assert_eq!(
        get_api_access_url("https://api.staging.cloudtruth.io/"),
        Ok("https://app.staging.cloudtruth.io/organization/api".to_string())
    );
    let err = get_api_access_url("https://example.com").unwrap_err();
    assert_eq!(err, ApplicationError::InvalidApiUrl("https://example.com".to_string()));
    assert_eq!(err.message(), "No equivalent application URL for API: https://example.com");
}

#[test]
fn argument_validators() {
    assert_eq!(environment_tag_validator("env:tag".to_string()), Ok(()));
    assert_eq!(
        environment_tag_validator("envtag".to_string()),
        Err("Use a ':' to separate the environment and tag names".to_string())
    );
    assert_eq!(
        environment_tag_validator("a:b:c".to_string()),
        Err("Can only have one ':' to separate the environment and tag names".to_string())
    );
    assert_eq!(i32_validator("-42".to_string()), Ok(()));
    assert_eq!(
        i32_validator("4x".to_string()),
        Err("invalid digit found in string".to_string())
    );
}

#[test]
fn confirmation_dialogue() {
    assert_eq!(confirm_choices(None), "y/n");
    assert_eq!(confirm_choices(Some(true)), "Y/n");
    assert_eq!(confirm_choices(Some(false)), "y/N");
    assert_eq!(confirm_step(0, " YES \n", None), ConfirmStep::Done(true));
    assert_eq!(confirm_step(0, "n", Some(true)), ConfirmStep::Done(false));
    assert_eq!(confirm_step(0, "\n", Some(true)), ConfirmStep::Done(true));
    assert_eq!(confirm_step(0, "\n", None), ConfirmStep::AskAgain);
    assert_eq!(confirm_step(1, "maybe", None), ConfirmStep::AskAgain);
    assert_eq!(confirm_step(2, "maybe", None), ConfirmStep::Done(false));
}

#[test]
fn object_types_and_audit_messages() {
    assert_eq!(resolve_object_type("parameter"), "Parameter");
    assert_eq!(resolve_object_type("AWSINTEGRATION"), "AwsIntegration");
    assert_eq!(resolve_object_type("service-account"), "ServiceAccount");
    assert_eq!(resolve_object_type("Unknown-Thing"), "Unknown-Thing");
    assert_eq!(unrecognized_type_help("Parameter"), None);
    let help = unrecognized_type_help("Bogus").unwrap();
    assert!(help.starts_with("The specified --type is not one of the recognized values: AwsIntegration, Environment"));
    assert!(help.ends_with("Template, Value"));
    assert_eq!(no_entries_message(None, None, None), "No audit log entries found");
    assert_eq!(
        no_entries_message(Some("Tag"), Some("prod"), Some("delete")),
        "No audit log entries found matching type==Tag, name-contains 'prod', action==delete"
    );
    assert!(bad_time_arg(true, &None));
    assert!(!bad_time_arg(true, &Some("t".to_string())));
    assert!(!bad_time_arg(false, &None));
    assert_eq!(check_parameter_scope(true, false), Err(AuditArgError::ParameterWithoutProject));
    assert_eq!(AuditArgError::ParameterWithoutProject.exit_code(), 39);
    assert_eq!(AuditArgError::InvalidTime.exit_code(), 34);
    assert_eq!(check_parameter_scope(true, true), Ok(()));
}

#[test]
fn string_writer_collects_text() {
    let mut w = StringWriter::new();
    assert_eq!(w.as_string(), "");
    assert_eq!(w.write("héllo ".as_bytes()), Ok(7));
    assert_eq!(w.write(b"world"), Ok(5));
    assert!(w.write(&[0xff, 0xfe]).is_err());
    assert_eq!(w.flush(), Ok(()));
    assert_eq!(w.as_string(), "héllo world");
}

#[test]
fn node_type_names() {
    assert_eq!(NodeTypeEnum::Directory.to_string(), "directory");
    assert_eq!(NodeTypeEnum::File.to_string(), "file");
}

fn sample_table() -> Table {
    let mut t = Table::new("parameter");
    t.set_header(vec!["Name".to_string(), "Value".to_string()]);
    t.add_row(vec!["DB_HOST".to_string(), "localhost".to_string()]);
    t.add_row(vec!["A".to_string(), "x,\"y\"".to_string()]);
    t
}

#[test]
fn table_as_text() {
    let out = sample_table().render("table").unwrap();
    let expected = "+---------+-----------+\n\
                    | Name    | Value     |\n\
                    +---------+-----------+\n\
                    | DB_HOST | localhost |\n\
                    | A       | x,\"y\"     |\n\
                    +---------+-----------+\n";
    assert_eq!(out, expected);
}

#[test]
fn table_as_csv() {
    let out = sample_table().render("csv").unwrap();
    assert_eq!(out, "Name,Value\nDB_HOST,localhost\nA,\"x,\"\"y\"\"\"\n");
}

#[test]
fn table_as_json() {
    let out = sample_table().render("json").unwrap();
    let expected = "{\n  \"parameter\": [\n    {\n      \"Name\": \"DB_HOST\",\n      \"Value\": \"localhost\"\n    },\n    {\n      \"Name\": \"A\",\n      \"Value\": \"x,\\\"y\\\"\"\n    }\n  ]\n}\n";
    assert_eq!(out, expected);
    let empty = Table::new("environment").render("json").unwrap();
    assert_eq!(empty, "{\n  \"environment\": []\n}\n");
}

#[test]
fn table_as_yaml() {
    let out = sample_table().render("yaml").unwrap();
    let expected = "---\n\"parameter\":\n  - \"Name\": \"DB_HOST\"\n    \"Value\": \"localhost\"\n  - \"Name\": \"A\"\n    \"Value\": \"x,\\\"y\\\"\"\n";
    assert_eq!(out, expected);
}

#[test]
fn table_unknown_format() {
    assert_eq!(
        sample_table().render("xml"),
        Err(TableError::UnknownFormat("xml".to_string()))
    );
}
