//! The parameter diff engine: which two sides are compared, under which headers, and which
//! rows differ.
use crate::details::{properties_text, ParameterDetails};
use crate::messages::{format_param_error, param_error_text};
use crate::order::{
    lemma_sorted_members, lemma_sorted_order_ordered, sort_positions, sorted_order, text_views,
};
use crate::text::{lower_of, lowercase, text_eq, text_le};
use vstd::prelude::*;

verus! {

/// Why two sides cannot be compared.
#[derive(Clone, Copy, Debug, PartialEq, Eq, Structural)]
pub enum DiffPlanError {
    /// More than two environments were given.
    TooManyEnvironments,
    /// More than two as-of values were given.
    TooManyTimes,
    /// Both sides are the same environment at the same time.
    SelfComparison,
}

/// The two sides of a comparison and the headers of their columns.
#[derive(Clone, Debug, PartialEq)]
pub struct DiffSides {
    pub env1: String,
    pub env2: String,
    pub as_of1: Option<String>,
    pub as_of2: Option<String>,
    pub header1: String,
    pub header2: String,
}

/// The environment of one side: two given are taken in order; one given is the second side
/// and the current environment the first; none given makes both the current environment.
pub open spec fn pick_env(current: Seq<char>, given: Seq<String>, second: bool) -> Seq<char> {
    if given.len() == 2 {
        if second {
            given[1]@
        } else {
            given[0]@
        }
    } else if given.len() == 1 && second {
        given[0]@
    } else {
        current
    }
}

/// The as-of text of one side, by the same rule, with "now" (`None`) in place of the current
/// environment.
pub open spec fn pick_time(given: Seq<String>, second: bool) -> Option<Seq<char>> {
    if given.len() == 2 {
        Some(
            if second {
                given[1]@
            } else {
                given[0]@
            },
        )
    } else if given.len() == 1 && second {
        Some(given[0]@)
    } else {
        None
    }
}

/// The text of `o`, or `d` when there is none.
pub open spec fn text_or(o: Option<Seq<char>>, d: Seq<char>) -> Seq<char> {
    match o {
        Some(t) => t,
        None => d,
    }
}

/// An environment name followed by its as-of text in parentheses, if there is one.
pub open spec fn side_label(env: Seq<char>, t: Option<Seq<char>>) -> Seq<char> {
    match t {
        Some(a) => env + " ("@ + a + ")"@,
        None => env,
    }
}

/// The column headers: the times when the environments agree, the environments when the
/// times agree, and both otherwise.
pub open spec fn headers(e1: Seq<char>, e2: Seq<char>, t1: Option<Seq<char>>, t2: Option<Seq<char>>) -> (
    Seq<char>,
    Seq<char>,
) {
    if e1 == e2 {
        (text_or(t1, "Current"@), text_or(t2, "Unspecified"@))
    } else if t1 == t2 {
        (e1, e2)
    } else {
        (side_label(e1, t1), side_label(e2, t2))
    }
}

fn opt_eq(a: &Option<String>, b: &Option<String>) -> (r: bool)
    ensures
        r == (a.deep_view() == b.deep_view()),
{
    match (a, b) {
        (Some(x), Some(y)) => text_eq(x.as_str(), y.as_str()),
        (None, None) => true,
        _ => false,
    }
}

fn opt_clone(a: &Option<String>) -> (r: Option<String>)
    ensures
        r.deep_view() == a.deep_view(),
{
    match a {
        Some(x) => Some(x.clone()),
        None => None,
    }
}

fn label_exec(env: &String, t: &Option<String>) -> (r: String)
    ensures
        r@ == side_label(env@, t.deep_view()),
{
    match t {
        Some(a) => {
            let mut s = env.clone();
            s.append(" (");
            s.append(a.as_str());
            s.append(")");
            s
        },
        None => env.clone(),
    }
}

/// Decides the two sides of a comparison from the current environment and the environments
/// and as-of texts given (at most two of each).
pub fn diff_sides(current_env: &str, env_list: &Vec<String>, as_list: &Vec<String>) -> (r: Result<
    DiffSides,
    DiffPlanError,
>)
    ensures
        env_list@.len() > 2 ==> r == Err::<DiffSides, DiffPlanError>(
            DiffPlanError::TooManyEnvironments,
        ),
        env_list@.len() <= 2 && as_list@.len() > 2 ==> r == Err::<DiffSides, DiffPlanError>(
            DiffPlanError::TooManyTimes,
        ),
        env_list@.len() <= 2 && as_list@.len() <= 2 ==> {
            let e1 = pick_env(current_env@, env_list@, false);
            let e2 = pick_env(current_env@, env_list@, true);
            let t1 = pick_time(as_list@, false);
            let t2 = pick_time(as_list@, true);
            if e1 == e2 && t1 == t2 {
                r == Err::<DiffSides, DiffPlanError>(DiffPlanError::SelfComparison)
            } else {
                &&& r is Ok
                &&& r.unwrap().env1@ == e1
                &&& r.unwrap().env2@ == e2
                &&& r.unwrap().as_of1.deep_view() == t1
                &&& r.unwrap().as_of2.deep_view() == t2
                &&& (r.unwrap().header1@, r.unwrap().header2@) == headers(e1, e2, t1, t2)
            }
        },
{
    if env_list.len() > 2 {
        return Err(DiffPlanError::TooManyEnvironments);
    }
    if as_list.len() > 2 {
        return Err(DiffPlanError::TooManyTimes);
    }
    let env1: String;
    let env2: String;
    if env_list.len() == 2 {
        env1 = env_list[0].clone();
        env2 = env_list[1].clone();
    } else if env_list.len() == 1 {
        env1 = String::from_str(current_env);
        env2 = env_list[0].clone();
    } else {
        env1 = String::from_str(current_env);
        env2 = String::from_str(current_env);
    }
    let as_of1: Option<String>;
    let as_of2: Option<String>;
    if as_list.len() == 2 {
        as_of1 = Some(as_list[0].clone());
        as_of2 = Some(as_list[1].clone());
    } else if as_list.len() == 1 {
        as_of1 = None;
        as_of2 = Some(as_list[0].clone());
    } else {
        as_of1 = None;
        as_of2 = None;
    }
    let same_env = env1 == env2;
    let same_time = opt_eq(&as_of1, &as_of2);
    if same_env && same_time {
        return Err(DiffPlanError::SelfComparison);
    }
    let header1: String;
    let header2: String;
    if same_env {
        header1 = match &as_of1 {
            Some(a) => a.clone(),
            None => String::from_str("Current"),
        };
        header2 = match &as_of2 {
            Some(a) => a.clone(),
            None => String::from_str("Unspecified"),
        };
    } else if same_time {
        header1 = env1.clone();
        header2 = env2.clone();
    } else {
        header1 = label_exec(&env1, &as_of1);
        header2 = label_exec(&env2, &as_of2);
    }
    Ok(DiffSides { env1, env2, as_of1, as_of2, header1, header2 })
}

} // verus!

verus! {

/// One row of the comparison: the parameter and the projected text of each side.
#[derive(Clone, Debug, PartialEq)]
pub struct DiffRow {
    pub name: String,
    pub left: String,
    pub right: String,
}

/// The differing rows, and the per-parameter errors met on either side.
#[derive(Clone, Debug, PartialEq)]
pub struct DiffReport {
    pub rows: Vec<DiffRow>,
    pub errors: Vec<String>,
}

/// The texts of a row.
pub open spec fn row_view(r: DiffRow) -> (Seq<char>, Seq<char>, Seq<char>) {
    (r.name@, r.left@, r.right@)
}

/// The first detail record named `name` on one side.
pub open spec fn detail_named(side: Seq<ParameterDetails>, name: Seq<char>) -> Option<
    ParameterDetails,
>
    decreases side.len(),
{
    if side.len() == 0 {
        None
    } else if side[0].key@ == name {
        Some(side[0])
    } else {
        detail_named(side.drop_first(), name)
    }
}

/// The parts joined with `sep` between each two.
pub open spec fn join_texts(parts: Seq<Seq<char>>, sep: Seq<char>) -> Seq<char>
    decreases parts.len(),
{
    if parts.len() == 0 {
        Seq::empty()
    } else if parts.len() == 1 {
        parts[0]
    } else {
        join_texts(parts.drop_last(), sep) + sep + parts.last()
    }
}

/// The separator between the properties of one side.
pub open spec fn property_separator() -> Seq<char> {
    ",\n"@
}

/// The projected text of `name` on one side: its properties joined, or empty where the side
/// has no such parameter.
pub open spec fn side_text(side: Seq<ParameterDetails>, name: Seq<char>, props: Seq<String>) -> Seq<
    char,
> {
    match detail_named(side, name) {
        Some(d) => join_texts(properties_text(d, props), property_separator()),
        None => Seq::empty(),
    }
}

/// The error reported for `name` on one side, empty where there is none.
pub open spec fn side_error(side: Seq<ParameterDetails>, name: Seq<char>) -> Seq<char> {
    match detail_named(side, name) {
        Some(d) => d.error@,
        None => Seq::empty(),
    }
}

/// The names of both sides, left first.
pub open spec fn all_names(left: Seq<ParameterDetails>, right: Seq<ParameterDetails>) -> Seq<String> {
    left.map_values(|d: ParameterDetails| d.key) + right.map_values(|d: ParameterDetails| d.key)
}

/// The first `n` names of `all`, each text kept once, at its first occurrence.
pub open spec fn distinct_upto(all: Seq<String>, n: nat) -> Seq<String>
    decreases n,
{
    if n == 0 {
        Seq::empty()
    } else {
        let s = distinct_upto(all, (n - 1) as nat);
        if exists|j: int| 0 <= j < s.len() && s[j]@ == all[n - 1]@ {
            s
        } else {
            s.push(all[n - 1])
        }
    }
}

/// The case-folded names.
pub open spec fn lower_keys(names: Seq<String>) -> Seq<Seq<char>> {
    names.map_values(|s: String| lower_of(s@))
}

/// The positions `0..n`.
pub open spec fn positions(n: nat) -> Seq<usize> {
    Seq::new(n, |i: int| i as usize)
}

/// The rows' names: every name of either side once, ordered case-insensitively (stably).
pub open spec fn row_names(left: Seq<ParameterDetails>, right: Seq<ParameterDetails>) -> Seq<String> {
    let all = all_names(left, right);
    let u = distinct_upto(all, all.len());
    sorted_order(lower_keys(u), positions(u.len())).map_values(|i: usize| u[i as int])
}

/// The rows for `names` whose two sides differ, in order.
pub open spec fn rows_for(
    names: Seq<String>,
    left: Seq<ParameterDetails>,
    right: Seq<ParameterDetails>,
    props: Seq<String>,
) -> Seq<(Seq<char>, Seq<char>, Seq<char>)>
    decreases names.len(),
{
    if names.len() == 0 {
        Seq::empty()
    } else {
        let s = rows_for(names.drop_last(), left, right, props);
        let n = names.last()@;
        let a = side_text(left, n, props);
        let b = side_text(right, n, props);
        if a != b {
            s.push((n, a, b))
        } else {
            s
        }
    }
}

/// The errors for `names`: the left one where there is one, then the right one where there is
/// one that differs from the left.
pub open spec fn errors_for(
    names: Seq<String>,
    left: Seq<ParameterDetails>,
    right: Seq<ParameterDetails>,
) -> Seq<Seq<char>>
    decreases names.len(),
{
    if names.len() == 0 {
        Seq::empty()
    } else {
        let s = errors_for(names.drop_last(), left, right);
        let n = names.last()@;
        let e1 = side_error(left, n);
        let e2 = side_error(right, n);
        let s1 = if e1.len() > 0 {
            s.push(param_error_text(n, e1))
        } else {
            s
        };
        if e2.len() > 0 && e1 != e2 {
            s1.push(param_error_text(n, e2))
        } else {
            s1
        }
    }
}

fn find_named(side: &Vec<ParameterDetails>, name: &str) -> (r: Option<usize>)
    ensures
        match r {
            Some(i) => i < side@.len() && detail_named(side@, name@) == Some(side@[i as int]),
            None => detail_named(side@, name@).is_none(),
        },
{
    let mut i: usize = 0;
    assert(side@.skip(0) =~= side@);
    while i < side.len()
        invariant
            i <= side@.len(),
            detail_named(side@, name@) == detail_named(side@.skip(i as int), name@),
        decreases side@.len() - i,
    {
        assert(side@.skip(i as int).drop_first() =~= side@.skip(i + 1));
        if text_eq(side[i].key.as_str(), name) {
            return Some(i);
        }
        i = i + 1;
    }
    None
}

fn join_exec(parts: &Vec<String>, sep: &str) -> (r: String)
    ensures
        r@ == join_texts(text_views(parts@), sep@),
{
    let mut s = String::new();
    let mut k: usize = 0;
    while k < parts.len()
        invariant
            k <= parts@.len(),
            s@ == join_texts(text_views(parts@.take(k as int)), sep@),
        decreases parts@.len() - k,
    {
        let ghost prev = text_views(parts@.take(k as int));
        if k > 0 {
            s.append(sep);
        }
        s.append(parts[k].as_str());
        proof {
            let next = text_views(parts@.take(k + 1));
            assert(next.drop_last() =~= prev);
            assert(next.last() == parts@[k as int]@);
            if k == 0 {
                assert(next.len() == 1);
            }
        }
        k = k + 1;
    }
    assert(parts@.take(k as int) =~= parts@);
    s
}

fn side_text_exec(side: &Vec<ParameterDetails>, name: &str, props: &Vec<String>) -> (r: String)
    ensures
        r@ == side_text(side@, name@, props@),
{
    match find_named(side, name) {
        Some(i) => {
            let parts = side[i].get_properties(props);
            join_exec(&parts, ",\n")
        },
        None => String::new(),
    }
}

fn side_error_exec(side: &Vec<ParameterDetails>, name: &str) -> (r: String)
    ensures
        r@ == side_error(side@, name@),
{
    match find_named(side, name) {
        Some(i) => side[i].error.clone(),
        None => String::new(),
    }
}

fn has_text(list: &Vec<String>, t: &str) -> (r: bool)
    ensures
        r == exists|j: int| 0 <= j < list@.len() && list@[j]@ == t@,
{
    let mut i: usize = 0;
    while i < list.len()
        invariant
            i <= list@.len(),
            forall|j: int| 0 <= j < i ==> list@[j]@ != t@,
        decreases list@.len() - i,
    {
        if text_eq(list[i].as_str(), t) {
            return true;
        }
        i = i + 1;
    }
    false
}

fn union_exec(left: &Vec<ParameterDetails>, right: &Vec<ParameterDetails>) -> (r: Vec<String>)
    ensures
        r@ == distinct_upto(all_names(left@, right@), all_names(left@, right@).len()),
{
    let ghost all = all_names(left@, right@);
    let mut out: Vec<String> = Vec::new();
    let mut i: usize = 0;
    while i < left.len()
        invariant
            i <= left@.len(),
            all == all_names(left@, right@),
            out@ == distinct_upto(all, i as nat),
        decreases left@.len() - i,
    {
        assert(all[i as int] == left@[i as int].key);
        if !has_text(&out, left[i].key.as_str()) {
            out.push(left[i].key.clone());
        }
        i = i + 1;
    }
    let mut k: usize = 0;
    while k < right.len()
        invariant
            k <= right@.len(),
            all == all_names(left@, right@),
            out@ == distinct_upto(all, (left@.len() + k) as nat),
        decreases right@.len() - k,
    {
        assert(all[left@.len() + k] == right@[k as int].key);
        if !has_text(&out, right[k].key.as_str()) {
            out.push(right[k].key.clone());
        }
        k = k + 1;
    }
    out
}

fn sorted_names(left: &Vec<ParameterDetails>, right: &Vec<ParameterDetails>) -> (r: Vec<String>)
    ensures
        r@ == row_names(left@, right@),
{
    let u = union_exec(left, right);
    let mut keys: Vec<String> = Vec::new();
    let mut idx: Vec<usize> = Vec::new();
    let mut i: usize = 0;
    while i < u.len()
        invariant
            i <= u@.len(),
            keys@.len() == i,
            idx@ == positions(i as nat),
            forall|j: int| 0 <= j < i ==> keys@[j]@ == lower_of(u@[j]@),
        decreases u@.len() - i,
    {
        keys.push(lowercase(u[i].as_str()));
        idx.push(i);
        i = i + 1;
        assert(idx@ =~= positions(i as nat));
    }
    assert(text_views(keys@) =~= lower_keys(u@));
    let order = sort_positions(&keys, &idx);
    let ghost target = order@.map_values(|p: usize| u@[p as int]);
    let mut out: Vec<String> = Vec::new();
    let mut k: usize = 0;
    while k < order.len()
        invariant
            k <= order@.len(),
            keys@.len() == u@.len(),
            forall|j: int| 0 <= j < order@.len() ==> order@[j] < keys@.len(),
            target == order@.map_values(|p: usize| u@[p as int]),
            out@ == target.take(k as int),
        decreases order@.len() - k,
    {
        out.push(u[order[k]].clone());
        k = k + 1;
        assert(out@ =~= target.take(k as int));
    }
    assert(target.take(k as int) =~= target);
    out
}

/// Compares two sides parameter by parameter: for every name on either side, ordered
/// case-insensitively, the selected properties of each side are joined with `,\n` (a side
/// without the parameter shows empty), and a row is kept exactly when the two texts differ.
/// The errors reported on either side are gathered too.
pub fn diff_parameters(
    left: &Vec<ParameterDetails>,
    right: &Vec<ParameterDetails>,
    properties: &Vec<String>,
) -> (r: DiffReport)
    ensures
        r.rows@.map_values(|x: DiffRow| row_view(x)) == rows_for(
            row_names(left@, right@),
            left@,
            right@,
            properties@,
        ),
        text_views(r.errors@) == errors_for(row_names(left@, right@), left@, right@),
{
    let names = sorted_names(left, right);
    let mut rows: Vec<DiffRow> = Vec::new();
    let mut errors: Vec<String> = Vec::new();
    let mut k: usize = 0;
    while k < names.len()
        invariant
            k <= names@.len(),
            rows@.map_values(|x: DiffRow| row_view(x)) == rows_for(
                names@.take(k as int),
                left@,
                right@,
                properties@,
            ),
            text_views(errors@) == errors_for(names@.take(k as int), left@, right@),
        decreases names@.len() - k,
    {
        let name = names[k].as_str();
        let ghost cur = names@.take(k + 1);
        assert(cur.drop_last() =~= names@.take(k as int));
        assert(cur.last() == names@[k as int]);
        let a = side_text_exec(left, name, properties);
        let b = side_text_exec(right, name, properties);
        let e1 = side_error_exec(left, name);
        let e2 = side_error_exec(right, name);
        let ghost prev_errors = errors@;
        if e1.unicode_len() > 0 {
            errors.push(format_param_error(name, e1.as_str()));
        }
        let ghost mid_errors = errors@;
        assert(text_views(mid_errors) == (if e1@.len() > 0 {
            text_views(prev_errors).push(param_error_text(name@, e1@))
        } else {
            text_views(prev_errors)
        })) by {
            if e1@.len() > 0 {
                assert(text_views(mid_errors) =~= text_views(prev_errors).push(
                    param_error_text(name@, e1@),
                ));
            }
        }
        if e2.unicode_len() > 0 && !text_eq(e1.as_str(), e2.as_str()) {
            errors.push(format_param_error(name, e2.as_str()));
            assert(text_views(errors@) =~= text_views(mid_errors).push(
                param_error_text(name@, e2@),
            ));
        }
        if !text_eq(a.as_str(), b.as_str()) {
            let ghost prev_rows = rows@;
            let row = DiffRow { name: names[k].clone(), left: a, right: b };
            rows.push(row);
            assert(rows@.map_values(|x: DiffRow| row_view(x)) =~= prev_rows.map_values(
                |x: DiffRow| row_view(x),
            ).push((name@, row.left@, row.right@)));
        }
        k = k + 1;
    }
    assert(names@.take(k as int) =~= names@);
    DiffReport { rows, errors }
}

} // verus!

verus! {

proof fn lemma_rows_members(
    names: Seq<String>,
    left: Seq<ParameterDetails>,
    right: Seq<ParameterDetails>,
    props: Seq<String>,
    n: Seq<char>,
)
    ensures
        (exists|i: int|
            0 <= i < rows_for(names, left, right, props).len() && #[trigger] rows_for(
                names,
                left,
                right,
                props,
            )[i].0 == n) <==> ((exists|j: int| 0 <= j < names.len() && #[trigger] names[j]@ == n)
            && side_text(left, n, props) != side_text(right, n, props)),
    decreases names.len(),
{
    if names.len() > 0 {
        let init = names.drop_last();
        lemma_rows_members(init, left, right, props, n);
        let s = rows_for(init, left, right, props);
        let r = rows_for(names, left, right, props);
        if exists|j: int| 0 <= j < names.len() && #[trigger] names[j]@ == n {
            let j = choose|j: int| 0 <= j < names.len() && #[trigger] names[j]@ == n;
            if j < init.len() {
                assert(init[j]@ == n);
            }
        }
        if exists|j: int| 0 <= j < init.len() && #[trigger] init[j]@ == n {
            let j = choose|j: int| 0 <= j < init.len() && #[trigger] init[j]@ == n;
            assert(names[j]@ == n);
        }
        if exists|i: int| 0 <= i < s.len() && #[trigger] s[i].0 == n {
            let i = choose|i: int| 0 <= i < s.len() && #[trigger] s[i].0 == n;
            assert(r[i].0 == n);
        }
        if exists|i: int| 0 <= i < r.len() && #[trigger] r[i].0 == n {
            let i = choose|i: int| 0 <= i < r.len() && #[trigger] r[i].0 == n;
            if i < s.len() {
                assert(s[i].0 == n);
            } else {
                assert(names[names.len() - 1]@ == n);
            }
        }
        let last = names.last()@;
        if side_text(left, last, props) != side_text(right, last, props) {
            assert(r[s.len() as int].0 == last);
        }
    }
}

proof fn lemma_distinct_members(all: Seq<String>, m: nat, n: Seq<char>)
    requires
        m <= all.len(),
    ensures
        (exists|j: int|
            0 <= j < distinct_upto(all, m).len() && #[trigger] distinct_upto(all, m)[j]@ == n) <==> (
        exists|j: int| 0 <= j < m && #[trigger] all[j]@ == n),
        distinct_upto(all, m).len() <= m,
    decreases m,
{
    if m > 0 {
        lemma_distinct_members(all, (m - 1) as nat, n);
        let s = distinct_upto(all, (m - 1) as nat);
        let d = distinct_upto(all, m);
        if exists|j: int| 0 <= j < d.len() && #[trigger] d[j]@ == n {
            let j = choose|j: int| 0 <= j < d.len() && #[trigger] d[j]@ == n;
            if j < s.len() {
                assert(s[j]@ == n);
            } else {
                assert(all[m - 1]@ == n);
            }
        }
        if exists|j: int| 0 <= j < m && #[trigger] all[j]@ == n {
            let j = choose|j: int| 0 <= j < m && #[trigger] all[j]@ == n;
            if j < m - 1 {
                let k = choose|k: int| 0 <= k < s.len() && #[trigger] s[k]@ == n;
                assert(d[k]@ == n);
            } else if exists|k: int| 0 <= k < s.len() && s[k]@ == all[m - 1]@ {
                let k = choose|k: int| 0 <= k < s.len() && s[k]@ == all[m - 1]@;
                assert(d[k]@ == n);
            } else {
                assert(d[s.len() as int]@ == n);
            }
        }
    }
}

/// Diff skip-equal: a name gets a row exactly when it names a parameter on either side and
/// the projected texts of its two sides differ.
pub proof fn lemma_diff_skip_equal(
    left: Seq<ParameterDetails>,
    right: Seq<ParameterDetails>,
    props: Seq<String>,
    n: Seq<char>,
)
    requires
        left.len() + right.len() <= usize::MAX,
    ensures
        (exists|i: int|
            0 <= i < rows_for(row_names(left, right), left, right, props).len()
                && #[trigger] rows_for(row_names(left, right), left, right, props)[i].0 == n) <==> ((
        exists|j: int|
            0 <= j < all_names(left, right).len() && #[trigger] all_names(left, right)[j]@ == n)
            && side_text(left, n, props) != side_text(right, n, props)),
{
    let all = all_names(left, right);
    let u = distinct_upto(all, all.len());
    let keys = lower_keys(u);
    let order = sorted_order(keys, positions(u.len()));
    let names = row_names(left, right);
    lemma_rows_members(names, left, right, props, n);
    lemma_distinct_members(all, all.len(), n);
    if exists|j: int| 0 <= j < names.len() && #[trigger] names[j]@ == n {
        let j = choose|j: int| 0 <= j < names.len() && #[trigger] names[j]@ == n;
        let p = order[j];
        lemma_sorted_members(keys, positions(u.len()), p);
        assert(order.contains(p));
        let q = choose|q: int| 0 <= q < positions(u.len()).len() && positions(u.len())[q] == p;
        assert(u[p as int]@ == n);
    }
    if exists|k: int| 0 <= k < u.len() && #[trigger] u[k]@ == n {
        let k = choose|k: int| 0 <= k < u.len() && #[trigger] u[k]@ == n;
        lemma_sorted_members(keys, positions(u.len()), k as usize);
        assert(positions(u.len())[k] == k as usize);
        assert(positions(u.len()).contains(k as usize));
        let i = choose|i: int| 0 <= i < order.len() && order[i] == k as usize;
        assert(names.len() == order.len());
        assert(names[i] == u[order[i] as int]);
        assert(names[i]@ == n);
    }
}

} // verus!

verus! {

/// The rows' names are in case-insensitive order.
pub proof fn lemma_row_names_ordered(left: Seq<ParameterDetails>, right: Seq<ParameterDetails>)
    ensures
        forall|i: int, j: int|
            0 <= i < j < row_names(left, right).len() ==> text_le(
                lower_of(#[trigger] row_names(left, right)[i]@),
                lower_of(#[trigger] row_names(left, right)[j]@),
            ),
{
    let all = all_names(left, right);
    let u = distinct_upto(all, all.len());
    let keys = lower_keys(u);
    let order = sorted_order(keys, positions(u.len()));
    let names = row_names(left, right);
    lemma_sorted_order_ordered(keys, positions(u.len()));
    lemma_sorted_members_bound(keys, positions(u.len()), u.len());
    assert forall|i: int, j: int| 0 <= i < j < names.len() implies text_le(
        lower_of(#[trigger] names[i]@),
        lower_of(#[trigger] names[j]@),
    ) by {
        assert(names[i] == u[order[i] as int]);
        assert(names[j] == u[order[j] as int]);
        assert(text_le(keys[order[i] as int], keys[order[j] as int]));
        assert(keys[order[i] as int] == lower_of(u[order[i] as int]@));
        assert(keys[order[j] as int] == lower_of(u[order[j] as int]@));
    }
}

proof fn lemma_sorted_members_bound(keys: Seq<Seq<char>>, idx: Seq<usize>, n: nat)
    requires
        forall|i: int| 0 <= i < idx.len() ==> idx[i] < n,
    ensures
        forall|i: int|
            0 <= i < sorted_order(keys, idx).len() ==> #[trigger] sorted_order(keys, idx)[i] < n,
{
    assert forall|i: int| 0 <= i < sorted_order(keys, idx).len() implies #[trigger] sorted_order(
        keys,
        idx,
    )[i] < n by {
        let x = sorted_order(keys, idx)[i];
        lemma_sorted_members(keys, idx, x);
        assert(sorted_order(keys, idx).contains(x));
        let j = choose|j: int| 0 <= j < idx.len() && idx[j] == x;
    }
}

} // verus!
