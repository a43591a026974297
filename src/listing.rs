//! `parameters list`: which view is shown, which records it keeps, and its columns.
use crate::details::ParameterDetails;
use crate::models::ParameterRule;
use crate::order::text_views;
use crate::text::{contains_exec, contains_text};
use vstd::prelude::*;

verus! {

/// The views of a parameter listing.
#[derive(Clone, Copy, Debug, PartialEq, Eq, Structural)]
pub enum ListView {
    All,
    Rules,
    External,
    Evaluated,
    Parents,
    Children,
}

/// The view flags given on the command line.
#[derive(Clone, Copy, Debug, PartialEq, Eq, Structural)]
pub struct ListFlags {
    pub rules: bool,
    pub external: bool,
    pub evaluated: bool,
    pub parents: bool,
    pub children: bool,
}

/// How many view flags are given.
pub open spec fn flag_count(f: ListFlags) -> nat {
    (if f.rules {
        1nat
    } else {
        0nat
    }) + (if f.external {
        1nat
    } else {
        0nat
    }) + (if f.evaluated {
        1nat
    } else {
        0nat
    }) + (if f.parents {
        1nat
    } else {
        0nat
    }) + (if f.children {
        1nat
    } else {
        0nat
    })
}

/// The view the flags ask for: the first given of rules, external, evaluated, parents and
/// children; all parameters when none is given.
pub open spec fn chosen_view(f: ListFlags) -> ListView {
    if f.rules {
        ListView::Rules
    } else if f.external {
        ListView::External
    } else if f.evaluated {
        ListView::Evaluated
    } else if f.parents {
        ListView::Parents
    } else if f.children {
        ListView::Children
    } else {
        ListView::All
    }
}

/// The view to show, and whether to warn that the view flags exclude each other.
pub fn list_view(flags: ListFlags) -> (r: (ListView, bool))
    ensures
        r.0 == chosen_view(flags),
        r.1 == (flag_count(flags) > 1),
{
    let mut count: usize = 0;
    if flags.rules {
        count = count + 1;
    }
    if flags.external {
        count = count + 1;
    }
    if flags.evaluated {
        count = count + 1;
    }
    if flags.parents {
        count = count + 1;
    }
    if flags.children {
        count = count + 1;
    }
    let view = if flags.rules {
        ListView::Rules
    } else if flags.external {
        ListView::External
    } else if flags.evaluated {
        ListView::Evaluated
    } else if flags.parents {
        ListView::Parents
    } else if flags.children {
        ListView::Children
    } else {
        ListView::All
    };
    (view, count > 1)
}

/// Whether any of the value flags asks to show values.
pub fn show_values(values: bool, show_times: bool, secrets: bool, format_given: bool) -> (r: bool)
    ensures
        r == (values || show_times || secrets || format_given),
{
    values || show_times || secrets || format_given
}

/// Whether the view needs the parameters' values from the service.
pub fn include_values(show_values: bool, view: ListView) -> (r: bool)
    ensures
        r == ((show_values && view != ListView::Rules) || view == ListView::External || view
            == ListView::Evaluated),
{
    (show_values && view != ListView::Rules) || view == ListView::External || view
        == ListView::Evaluated
}

/// What the view lists, in words.
pub open spec fn view_text(view: ListView) -> Seq<char> {
    match view {
        ListView::All => "parameters"@,
        ListView::Rules => "parameter rules"@,
        ListView::External => "external parameters"@,
        ListView::Evaluated => "evaluated parameters"@,
        ListView::Parents => "parameters from a parent project"@,
        ListView::Children => "parameters from a child project"@,
    }
}

pub fn view_description(view: ListView) -> (r: String)
    ensures
        r@ == view_text(view),
{
    match view {
        ListView::All => String::from_str("parameters"),
        ListView::Rules => String::from_str("parameter rules"),
        ListView::External => String::from_str("external parameters"),
        ListView::Evaluated => String::from_str("evaluated parameters"),
        ListView::Parents => String::from_str("parameters from a parent project"),
        ListView::Children => String::from_str("parameters from a child project"),
    }
}

/// Whether the view keeps a record of the project `proj_id`: external ones, evaluated ones,
/// those with rules, or those defined in another project (a parent); the children's records
/// are gathered per child project instead.
pub open spec fn keeps(view: ListView, proj_id: Seq<char>, d: ParameterDetails) -> bool {
    match view {
        ListView::External => d.external,
        ListView::Evaluated => d.evaluated,
        ListView::Rules => d.rules@.len() > 0,
        ListView::Parents => !contains_text(d.project_url@, proj_id),
        _ => true,
    }
}

/// The records of `s` the view keeps, in order.
pub open spec fn kept(s: Seq<ParameterDetails>, view: ListView, proj_id: Seq<char>) -> Seq<
    ParameterDetails,
>
    decreases s.len(),
{
    if s.len() == 0 {
        Seq::empty()
    } else {
        (if keeps(view, proj_id, s[0]) {
            seq![s[0]]
        } else {
            Seq::empty()
        }) + kept(s.drop_first(), view, proj_id)
    }
}

fn keeps_exec(view: ListView, proj_id: &str, d: &ParameterDetails) -> (r: bool)
    ensures
        r == keeps(view, proj_id@, *d),
{
    match view {
        ListView::External => d.external,
        ListView::Evaluated => d.evaluated,
        ListView::Rules => d.rules.len() > 0,
        ListView::Parents => !contains_exec(d.project_url.as_str(), proj_id),
        _ => true,
    }
}

/// The records the view keeps for the project `proj_id`.
pub fn filter_details(details: Vec<ParameterDetails>, view: ListView, proj_id: &str) -> (r: Vec<
    ParameterDetails,
>)
    ensures
        r@ == kept(details@, view, proj_id@),
{
    let ghost whole = details@;
    let mut rest = details;
    let mut out: Vec<ParameterDetails> = Vec::new();
    assert(out@ + kept(rest@, view, proj_id@) =~= kept(whole, view, proj_id@));
    while rest.len() > 0
        invariant
            out@ + kept(rest@, view, proj_id@) == kept(whole, view, proj_id@),
        decreases rest@.len(),
    {
        let ghost before = rest@;
        let d = rest.remove(0);
        assert(rest@ =~= before.drop_first());
        if keeps_exec(view, proj_id, &d) {
            let ghost o = out@;
            out.push(d);
            assert(out@ + kept(rest@, view, proj_id@) =~= o + kept(before, view, proj_id@));
        } else {
            assert(out@ + kept(rest@, view, proj_id@) =~= out@ + kept(before, view, proj_id@));
        }
    }
    assert(out@ =~= kept(whole, view, proj_id@));
    out
}

/// The records defined in the project `project_id` itself (its url holds the id).
pub fn retain_from_project(details: Vec<ParameterDetails>, project_id: &str) -> (r: Vec<
    ParameterDetails,
>)
    ensures
        r@ == own_records(details@, project_id@),
{
    let ghost whole = details@;
    let mut rest = details;
    let mut out: Vec<ParameterDetails> = Vec::new();
    assert(out@ + own_records(rest@, project_id@) =~= own_records(whole, project_id@));
    while rest.len() > 0
        invariant
            out@ + own_records(rest@, project_id@) == own_records(whole, project_id@),
        decreases rest@.len(),
    {
        let ghost before = rest@;
        let d = rest.remove(0);
        assert(rest@ =~= before.drop_first());
        if contains_exec(d.project_url.as_str(), project_id) {
            let ghost o = out@;
            out.push(d);
            assert(out@ + own_records(rest@, project_id@) =~= o + own_records(before, project_id@));
        } else {
            assert(out@ + own_records(rest@, project_id@) =~= out@ + own_records(
                before,
                project_id@,
            ));
        }
    }
    assert(out@ =~= own_records(whole, project_id@));
    out
}

/// The records of `s` whose project url holds `project_id`, in order.
pub open spec fn own_records(s: Seq<ParameterDetails>, project_id: Seq<char>) -> Seq<
    ParameterDetails,
>
    decreases s.len(),
{
    if s.len() == 0 {
        Seq::empty()
    } else {
        (if contains_text(s[0].project_url@, project_id) {
            seq![s[0]]
        } else {
            Seq::empty()
        }) + own_records(s.drop_first(), project_id)
    }
}

} // verus!

verus! {

/// The column headers and the properties of a listing (the rules view has its own rows).
pub open spec fn columns(view: ListView, show_times: bool) -> (Seq<Seq<char>>, Seq<Seq<char>>) {
    let base: (Seq<Seq<char>>, Seq<Seq<char>>) = match view {
        ListView::External => (seq!["Name"@, "FQN"@, "JMES"@], seq!["name"@, "fqn"@, "jmes-path"@]),
        ListView::Evaluated => (seq!["Name"@, "Value"@, "Raw"@], seq!["name"@, "value"@, "raw"@]),
        ListView::Parents | ListView::Children => (
            seq!["Name"@, "Value"@, "Project"@],
            seq!["name"@, "value"@, "project-name"@],
        ),
        ListView::Rules => (
            seq!["Name"@, "Param Type"@, "Rule Type"@, "Constraint"@],
            Seq::empty(),
        ),
        ListView::All => (
            seq![
                "Name"@,
                "Value"@,
                "Source"@,
                "Param Type"@,
                "Rules"@,
                "Type"@,
                "Secret"@,
                "Description"@,
            ],
            seq![
                "name"@,
                "value"@,
                "environment"@,
                "type"@,
                "rule-count"@,
                "scope"@,
                "secret"@,
                "description"@,
            ],
        ),
    };
    if show_times {
        (
            base.0 + seq!["Created At"@, "Modified At"@],
            if view == ListView::Rules {
                base.1
            } else {
                base.1 + seq!["created-at"@, "modified-at"@]
            },
        )
    } else {
        base
    }
}

fn push_texts(v: &mut Vec<String>, items: &Vec<&'static str>)
    ensures
        text_views(final(v)@) == text_views(old(v)@) + items@.map_values(|s: &str| s@),
{
    let ghost start = text_views(v@);
    let mut k: usize = 0;
    while k < items.len()
        invariant
            k <= items@.len(),
            text_views(v@) == start + items@.take(k as int).map_values(|s: &str| s@),
        decreases items@.len() - k,
    {
        let ghost prev = v@;
        v.push(String::from_str(items[k]));
        assert(text_views(v@) =~= text_views(prev).push(items@[k as int]@));
        k = k + 1;
        assert(start + items@.take(k as int).map_values(|s: &str| s@) =~= (start + items@.take(
            k - 1,
        ).map_values(|s: &str| s@)).push(items@[k - 1]@));
    }
    assert(items@.take(k as int) =~= items@);
}

/// The column headers and the properties of a listing.
pub fn list_columns(view: ListView, show_times: bool) -> (r: (Vec<String>, Vec<String>))
    ensures
        (text_views(r.0@), text_views(r.1@)) == columns(view, show_times),
{
    let (hdr, props): (Vec<&'static str>, Vec<&'static str>) = match view {
        ListView::External => (vec!["Name", "FQN", "JMES"], vec!["name", "fqn", "jmes-path"]),
        ListView::Evaluated => (vec!["Name", "Value", "Raw"], vec!["name", "value", "raw"]),
        ListView::Parents | ListView::Children => (
            vec!["Name", "Value", "Project"],
            vec!["name", "value", "project-name"],
        ),
        ListView::Rules => (vec!["Name", "Param Type", "Rule Type", "Constraint"], vec![]),
        ListView::All => (
            vec!["Name", "Value", "Source", "Param Type", "Rules", "Type", "Secret", "Description"],
            vec![
                "name",
                "value",
                "environment",
                "type",
                "rule-count",
                "scope",
                "secret",
                "description",
            ],
        ),
    };
    let mut headers: Vec<String> = Vec::new();
    let mut properties: Vec<String> = Vec::new();
    push_texts(&mut headers, &hdr);
    push_texts(&mut properties, &props);
    if show_times {
        push_texts(&mut headers, &vec!["Created At", "Modified At"]);
        if view != ListView::Rules {
            push_texts(&mut properties, &vec!["created-at", "modified-at"]);
        }
    }
    proof {
        let c = columns(view, show_times);
        assert(text_views(headers@) =~= c.0);
        assert(text_views(properties@) =~= c.1);
    }
    (headers, properties)
}

} // verus!

verus! {

/// The texts of each row.
pub open spec fn row_texts(rows: Seq<Vec<String>>) -> Seq<Seq<Seq<char>>> {
    rows.map_values(|row: Vec<String>| text_views(row@))
}

/// The row of one rule: the parameter, its type, the rule's type and constraint, and, with
/// times, when the rule was made and changed.
pub open spec fn rule_row(d: ParameterDetails, rule: ParameterRule, show_times: bool) -> Seq<
    Seq<char>,
> {
    seq![d.key@, d.param_type@, rule._type.text(), rule.constraint@] + if show_times {
        seq![rule.created_at@, rule.modified_at@]
    } else {
        Seq::empty()
    }
}

/// One row per rule of each record, records in order.
pub open spec fn rule_rows_for(details: Seq<ParameterDetails>, show_times: bool) -> Seq<
    Seq<Seq<char>>,
>
    decreases details.len(),
{
    if details.len() == 0 {
        Seq::empty()
    } else {
        let d = details.last();
        rule_rows_for(details.drop_last(), show_times) + d.rules@.map_values(
            |rule: ParameterRule| rule_row(d, rule, show_times),
        )
    }
}

/// The rows of the rules view.
pub fn rule_rows(details: &Vec<ParameterDetails>, show_times: bool) -> (r: Vec<Vec<String>>)
    ensures
        row_texts(r@) == rule_rows_for(details@, show_times),
{
    let mut rows: Vec<Vec<String>> = Vec::new();
    let mut i: usize = 0;
    while i < details.len()
        invariant
            i <= details@.len(),
            row_texts(rows@) == rule_rows_for(details@.take(i as int), show_times),
        decreases details@.len() - i,
    {
        let d = &details[i];
        let ghost start = row_texts(rows@);
        let ghost mapped = d.rules@.map_values(|rule: ParameterRule| rule_row(*d, rule, show_times));
        let mut j: usize = 0;
        while j < d.rules.len()
            invariant
                j <= d.rules@.len(),
                mapped == d.rules@.map_values(|rule: ParameterRule| rule_row(*d, rule, show_times)),
                row_texts(rows@) == start + mapped.take(j as int),
            decreases d.rules@.len() - j,
        {
            let rule = &d.rules[j];
            let mut row: Vec<String> = Vec::new();
            row.push(d.key.clone());
            row.push(d.param_type.clone());
            row.push(rule._type.to_string());
            row.push(rule.constraint.clone());
            if show_times {
                row.push(rule.created_at.clone());
                row.push(rule.modified_at.clone());
            }
            assert(text_views(row@) =~= rule_row(*d, *rule, show_times));
            let ghost prev = rows@;
            rows.push(row);
            assert(row_texts(rows@) =~= row_texts(prev).push(mapped[j as int]));
            j = j + 1;
            assert(start + mapped.take(j as int) =~= (start + mapped.take(j - 1)).push(
                mapped[j - 1],
            ));
        }
        assert(mapped.take(j as int) =~= mapped);
        assert(details@.take(i + 1).drop_last() =~= details@.take(i as int));
        assert(details@.take(i + 1).last() == *d);
        i = i + 1;
    }
    assert(details@.take(i as int) =~= details@);
    rows
}

} // verus!

verus! {

/// Whether the per-environment view shows a record: always with `all_envs`, otherwise where a
/// value, an FQN or a JMES path is set.
pub fn shown_in_environment_view(all_envs: bool, d: &ParameterDetails) -> (r: bool)
    ensures
        r == (all_envs || d.value@ != crate::details::UNSET_VALUE@ || d.fqn@.len() > 0
            || d.jmes_path@.len() > 0),
{
    all_envs || !crate::text::text_eq(d.value.as_str(), crate::details::UNSET_VALUE)
        || d.fqn.unicode_len() > 0 || d.jmes_path.unicode_len() > 0
}

} // verus!
