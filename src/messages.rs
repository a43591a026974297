//! The texts the commands show the user.
use crate::order::text_views;
use vstd::prelude::*;

verus! {

/// One line of the list of parameters that could not be resolved.
pub open spec fn param_error_text(name: Seq<char>, err: Seq<char>) -> Seq<char> {
    "   "@ + name + ": "@ + err
}

/// Formats one entry of the list of parameter errors.
pub fn format_param_error(param_name: &str, param_err: &str) -> (r: String)
    ensures
        r@ == param_error_text(param_name@, param_err@),
{
    let mut s = String::from_str("   ");
    s.append(param_name);
    s.append(": ");
    s.append(param_err);
    s
}

} // verus!

verus! {

/// The name of the program, as shown in hints.
pub fn binary_name() -> (r: String)
    ensures
        r@ == "cloudtruth"@,
{
    String::from_str("cloudtruth")
}

/// A warning line: the message after a `WARN: ` prefix.
pub fn warn_user(message: String) -> (r: String)
    ensures
        r@ == "WARN: "@ + message@,
{
    let mut s = String::from_str("WARN: ");
    s.append(message.as_str());
    s
}

/// The warning shown when a command is given without a sub-command.
pub fn warn_missing_subcommand(command: &str) -> (r: String)
    ensures
        r@ == "WARN: "@ + ("No '"@ + command@ + "' sub-command executed."@),
{
    let mut m = String::from_str("No '");
    m.append(command);
    m.append("' sub-command executed.");
    let r = warn_user(m);
    r
}

pub(crate) fn join_lines(lines: &Vec<String>, sep: &str) -> (r: String)
    ensures
        r@ == join_with(text_views(lines@), sep@),
{
    let mut s = String::new();
    let mut k: usize = 0;
    while k < lines.len()
        invariant
            k <= lines@.len(),
            s@ == join_with(text_views(lines@.take(k as int)), sep@),
        decreases lines@.len() - k,
    {
        let ghost prev = text_views(lines@.take(k as int));
        if k > 0 {
            s.append(sep);
        }
        s.append(lines[k].as_str());
        proof {
            let next = text_views(lines@.take(k + 1));
            assert(next.drop_last() =~= prev);
            assert(next.last() == lines@[k as int]@);
            if k == 0 {
                assert(next.len() == 1);
            }
        }
        k = k + 1;
    }
    assert(lines@.take(k as int) =~= lines@);
    s
}

/// The texts joined with `sep` between each two.
pub open spec fn join_with(parts: Seq<Seq<char>>, sep: Seq<char>) -> Seq<char>
    decreases parts.len(),
{
    if parts.len() == 0 {
        Seq::empty()
    } else if parts.len() == 1 {
        parts[0]
    } else {
        join_with(parts.drop_last(), sep) + sep + parts.last()
    }
}

/// The warning listing the parameters that could not be resolved; `None` when there are none.
pub fn warn_unresolved_params(errors: &Vec<String>) -> (r: Option<String>)
    ensures
        errors@.len() == 0 ==> r.is_none(),
        errors@.len() > 0 ==> r.is_some() && r.unwrap()@ == "Errors resolving parameters:\n"@
            + join_with(text_views(errors@), "\n"@) + "\n"@,
{
    if errors.len() == 0 {
        return None;
    }
    let mut s = String::from_str("Errors resolving parameters:\n");
    let body = join_lines(errors, "\n");
    s.append(body.as_str());
    s.append("\n");
    Some(s)
}

/// The error shown when an environment is not found.
pub fn error_no_environment_message(env_name: &str) -> (r: String)
    ensures
        r@ == "The '"@ + env_name@ + "' environment could not be found in your account."@,
{
    let mut s = String::from_str("The '");
    s.append(env_name);
    s.append("' environment could not be found in your account.");
    s
}

/// The error shown for an as-of argument no format reads.
pub fn invalid_time_format(arg: &str) -> (r: String)
    ensures
        r@ == "Invalid '"@ + arg@ + "' value"@,
{
    let mut s = String::from_str("Invalid '");
    s.append(arg);
    s.append("' value");
    s
}

/// The warning shown when login stops early.
pub fn warn_login_done(reason: &str) -> (r: String)
    ensures
        r@ == "Login not performed: "@ + reason@,
{
    let mut s = String::from_str("Login not performed: ");
    s.append(reason);
    s
}

/// One failure of a template evaluation: the parameter and what went wrong with it.
#[derive(Clone, Debug, PartialEq)]
pub struct TemplateLookupFailure {
    pub parameter_name: String,
    pub error_detail: String,
}

/// The lines of a failed template evaluation, each after a newline and two spaces.
pub open spec fn eval_failure_lines(failures: Seq<TemplateLookupFailure>) -> Seq<Seq<char>> {
    if failures.len() == 0 {
        seq!["No details available"@]
    } else {
        failures.map_values(
            |f: TemplateLookupFailure| f.parameter_name@ + ": "@ + f.error_detail@,
        )
    }
}

/// The detail of a failed template evaluation: one indented line per failing parameter, or a
/// note that the service gave none.
pub fn template_eval_errors(failures: &Vec<TemplateLookupFailure>) -> (r: String)
    ensures
        r@ == "\n  "@ + join_with(eval_failure_lines(failures@), "\n  "@),
{
    let mut lines: Vec<String> = Vec::new();
    if failures.len() == 0 {
        lines.push(String::from_str("No details available"));
        assert(text_views(lines@) =~= eval_failure_lines(failures@));
    } else {
        let mut k: usize = 0;
        while k < failures.len()
            invariant
                k <= failures@.len(),
                text_views(lines@) == eval_failure_lines(failures@).take(k as int),
                failures@.len() > 0,
            decreases failures@.len() - k,
        {
            let mut line = failures[k].parameter_name.clone();
            line.append(": ");
            line.append(failures[k].error_detail.as_str());
            let ghost prev = lines@;
            let ghost f = failures@[k as int];
            assert(line@ == f.parameter_name@ + ": "@ + f.error_detail@);
            assert(eval_failure_lines(failures@)[k as int] == line@);
            lines.push(line);
            assert(text_views(lines@) =~= text_views(prev).push(line@));
            k = k + 1;
            assert(text_views(lines@) =~= eval_failure_lines(failures@).take(k as int));
        }
        assert(eval_failure_lines(failures@).take(k as int) =~= eval_failure_lines(failures@));
    }
    let mut s = String::from_str("\n  ");
    let body = join_lines(&lines, "\n  ");
    s.append(body.as_str());
    s
}

/// Why a template could not be had.
#[derive(Clone, Debug, PartialEq)]
pub enum TemplateError {
    Authentication(String),
    EvaluateFailed(Vec<TemplateLookupFailure>),
    UnhandledError(String),
    ResponseError(String),
    NotFound(String, String),
    EnvironmentMissing(String, String),
}

impl TemplateError {
    /// The text shown for the error.
    pub open spec fn text(&self) -> Seq<char> {
        match self {
            TemplateError::Authentication(m) => "Not Authenticated: "@ + m@,
            TemplateError::EvaluateFailed(f) => "Evaluation failed:"@ + ("\n  "@ + join_with(
                eval_failure_lines(f@),
                "\n  "@,
            )),
            TemplateError::UnhandledError(m) => m@,
            TemplateError::ResponseError(m) => m@,
            TemplateError::NotFound(t, p) => "No template '"@ + t@ + "' found in project '"@ + p@
                + "'"@,
            TemplateError::EnvironmentMissing(e, c) => "Did not find environment '"@ + e@ + "'"@
                + c@,
        }
    }

    pub fn message(&self) -> (r: String)
        ensures
            r@ == self.text(),
    {
        match self {
            TemplateError::Authentication(m) => {
                let mut s = String::from_str("Not Authenticated: ");
                s.append(m.as_str());
                s
            },
            TemplateError::EvaluateFailed(f) => {
                let mut s = String::from_str("Evaluation failed:");
                let detail = template_eval_errors(f);
                s.append(detail.as_str());
                s
            },
            TemplateError::UnhandledError(m) => m.clone(),
            TemplateError::ResponseError(m) => m.clone(),
            TemplateError::NotFound(t, p) => {
                let mut s = String::from_str("No template '");
                s.append(t.as_str());
                s.append("' found in project '");
                s.append(p.as_str());
                s.append("'");
                s
            },
            TemplateError::EnvironmentMissing(e, c) => {
                let mut s = String::from_str("Did not find environment '");
                s.append(e.as_str());
                s.append("'");
                s.append(c.as_str());
                s
            },
        }
    }
}

} // verus!
