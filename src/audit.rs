//! Audit log listing: object type names, argument checks and the empty-result message.
use crate::messages::{join_lines, join_with};
use crate::order::text_views;
use crate::text::{lower_of, lowercase, text_eq};
use vstd::prelude::*;

verus! {

/// The object types the service records in its audit log.
pub open spec fn object_types() -> Seq<Seq<char>> {
    seq![
        "AwsIntegration"@,
        "Environment"@,
        "GitHubIntegration"@,
        "Invitation"@,
        "Membership"@,
        "Organization"@,
        "Parameter"@,
        "ParameterRule"@,
        "ParameterType"@,
        "ParameterTypeRule"@,
        "Project"@,
        "Pull"@,
        "Push"@,
        "ServiceAccount"@,
        "Tag"@,
        "Task"@,
        "Template"@,
        "Value"@,
    ]
}

fn object_type_values() -> (r: Vec<&'static str>)
    ensures
        r@.map_values(|s: &str| s@) == object_types(),
{
    let v = vec![
        "AwsIntegration",
        "Environment",
        "GitHubIntegration",
        "Invitation",
        "Membership",
        "Organization",
        "Parameter",
        "ParameterRule",
        "ParameterType",
        "ParameterTypeRule",
        "Project",
        "Pull",
        "Push",
        "ServiceAccount",
        "Tag",
        "Task",
        "Template",
        "Value",
    ];
    assert(v@.map_values(|s: &str| s@) =~= object_types());
    v
}

/// The first of `types` that folds to `lower`.
pub open spec fn first_folding_to(types: Seq<Seq<char>>, lower: Seq<char>) -> Option<Seq<char>>
    decreases types.len(),
{
    if types.len() == 0 {
        None
    } else if lower_of(types[0]) == lower {
        Some(types[0])
    } else {
        first_folding_to(types.drop_first(), lower)
    }
}

/// The object type an input names, compared without regard to case; `service-account` names
/// `ServiceAccount`; any other input stands as given.
pub open spec fn resolved_object_type(input: Seq<char>) -> Seq<char> {
    match first_folding_to(object_types(), lower_of(input)) {
        Some(t) => t,
        None => if lower_of(input) == "service-account"@ {
            "ServiceAccount"@
        } else {
            input
        },
    }
}

/// Resolves an object type name as the service spells it.
pub fn resolve_object_type(input: &str) -> (r: String)
    ensures
        r@ == resolved_object_type(input@),
{
    let lowerin = lowercase(input);
    let values = object_type_values();
    let ghost types = object_types();
    let mut k: usize = 0;
    assert(types.skip(0) =~= types);
    while k < values.len()
        invariant
            k <= values@.len(),
            types == object_types(),
            lowerin@ == lower_of(input@),
            values@.map_values(|s: &str| s@) == types,
            first_folding_to(types, lowerin@) == first_folding_to(types.skip(k as int), lowerin@),
        decreases values@.len() - k,
    {
        assert(types.skip(k as int).drop_first() =~= types.skip(k + 1));
        assert(types[k as int] == values@[k as int]@);
        let v = lowercase(values[k]);
        if v == lowerin {
            assert(types.skip(k as int)[0] == types[k as int]);
            assert(types.skip(k as int).len() > 0);
            let r = String::from_str(values[k]);
            return r;
        }
        k = k + 1;
    }
    if text_eq(lowerin.as_str(), "service-account") {
        return String::from_str("ServiceAccount");
    }
    String::from_str(input)
}

/// Whether an input is one of the object types exactly.
pub open spec fn is_object_type(t: Seq<char>) -> bool {
    exists|i: int| 0 <= i < object_types().len() && object_types()[i] == t
}

/// The hint shown when the object type filter names no known type.
pub fn unrecognized_type_help(object_type: &str) -> (r: Option<String>)
    ensures
        is_object_type(object_type@) ==> r.is_none(),
        !is_object_type(object_type@) ==> r.is_some() && r.unwrap()@
            == "The specified --type is not one of the recognized values: "@ + join_with(
            object_types(),
            ", "@,
        ),
{
    let values = object_type_values();
    let mut names: Vec<String> = Vec::new();
    let mut k: usize = 0;
    while k < values.len()
        invariant
            k <= values@.len(),
            values@.map_values(|s: &str| s@) == object_types(),
            text_views(names@) == object_types().take(k as int),
            forall|i: int| 0 <= i < k ==> object_types()[i] != object_type@,
        decreases values@.len() - k,
    {
        assert(object_types()[k as int] == values@[k as int]@);
        if text_eq(values[k], object_type) {
            return None;
        }
        let ghost prev = names@;
        names.push(String::from_str(values[k]));
        assert(text_views(names@) =~= text_views(prev).push(object_types()[k as int]));
        k = k + 1;
        assert(object_types().take(k as int) =~= object_types().take(k - 1).push(
            object_types()[k - 1],
        ));
    }
    assert(object_types().take(k as int) =~= object_types());
    let mut s = String::from_str("The specified --type is not one of the recognized values: ");
    let list = join_lines(&names, ", ");
    s.append(list.as_str());
    Some(s)
}

/// The filters of a listing that found nothing, in words.
pub open spec fn filter_words(
    object_type: Option<Seq<char>>,
    name: Option<Seq<char>>,
    action: Option<Seq<char>>,
) -> Seq<Seq<char>> {
    (match object_type {
        Some(o) => seq!["type=="@ + o],
        None => Seq::empty(),
    }) + (match name {
        Some(n) => seq!["name-contains '"@ + n + "'"@],
        None => Seq::empty(),
    }) + (match action {
        Some(a) => seq!["action=="@ + a],
        None => Seq::empty(),
    })
}

/// The message shown when the audit log has no entry matching the filters.
pub fn no_entries_message(object_type: Option<&str>, name: Option<&str>, action: Option<&str>) -> (r:
    String)
    ensures
        ({
            let o = match object_type {
                Some(s) => Some(s@),
                None => None::<Seq<char>>,
            };
            let n = match name {
                Some(s) => Some(s@),
                None => None::<Seq<char>>,
            };
            let a = match action {
                Some(s) => Some(s@),
                None => None::<Seq<char>>,
            };
            let words = filter_words(o, n, a);
            if words.len() == 0 {
                r@ == "No audit log entries found"@
            } else {
                r@ == "No audit log entries found matching "@ + join_with(words, ", "@)
            }
        }),
{
    let mut words: Vec<String> = Vec::new();
    let ghost o = match object_type {
        Some(s) => Some(s@),
        None => None::<Seq<char>>,
    };
    let ghost n = match name {
        Some(s) => Some(s@),
        None => None::<Seq<char>>,
    };
    let ghost a = match action {
        Some(s) => Some(s@),
        None => None::<Seq<char>>,
    };
    if let Some(t) = object_type {
        let mut w = String::from_str("type==");
        w.append(t);
        words.push(w);
    }
    if let Some(x) = name {
        let mut w = String::from_str("name-contains '");
        w.append(x);
        w.append("'");
        words.push(w);
    }
    if let Some(x) = action {
        let mut w = String::from_str("action==");
        w.append(x);
        words.push(w);
    }
    assert(text_views(words@) =~= filter_words(o, n, a));
    if words.len() == 0 {
        String::from_str("No audit log entries found")
    } else {
        let mut s = String::from_str("No audit log entries found matching ");
        let list = join_lines(&words, ", ");
        s.append(list.as_str());
        s
    }
}

/// Why an audit listing stops before asking the service.
#[derive(Clone, Copy, Debug, PartialEq, Eq, Structural)]
pub enum AuditArgError {
    /// A `--before` or `--after` value no format reads.
    InvalidTime,
    UserNotFound,
    EnvironmentNotFound,
    ProjectNotFound,
    ParameterNotFound,
    /// A parameter filter needs a project.
    ParameterWithoutProject,
}

impl AuditArgError {
    /// The process exit code for the error.
    pub open spec fn code(&self) -> i32 {
        match self {
            AuditArgError::InvalidTime => 34,
            AuditArgError::UserNotFound => 35,
            AuditArgError::EnvironmentNotFound => 36,
            AuditArgError::ProjectNotFound => 37,
            AuditArgError::ParameterNotFound => 38,
            AuditArgError::ParameterWithoutProject => 39,
        }
    }

    pub fn exit_code(&self) -> (r: i32)
        ensures
            r == self.code(),
    {
        match self {
            AuditArgError::InvalidTime => 34,
            AuditArgError::UserNotFound => 35,
            AuditArgError::EnvironmentNotFound => 36,
            AuditArgError::ProjectNotFound => 37,
            AuditArgError::ParameterNotFound => 38,
            AuditArgError::ParameterWithoutProject => 39,
        }
    }
}

/// Whether a time filter was given but no format reads it.
pub fn bad_time_arg(given: bool, parsed: &Option<String>) -> (r: bool)
    ensures
        r == (given && parsed.is_none()),
{
    given && parsed.is_none()
}

/// A parameter filter is only meaningful within a project.
pub fn check_parameter_scope(parameter_given: bool, project_given: bool) -> (r: Result<
    (),
    AuditArgError,
>)
    ensures
        r is Err <==> (parameter_given && !project_given),
        r is Err ==> r == Err::<(), AuditArgError>(AuditArgError::ParameterWithoutProject),
{
    if parameter_given && !project_given {
        Err(AuditArgError::ParameterWithoutProject)
    } else {
        Ok(())
    }
}

} // verus!
