//! The environment tree: children by name, depth-first orders and the indented tree view.
use crate::order::{
    lemma_sorted_members, lemma_sorted_order_ordered, sort_positions, sorted_order, text_views,
};
use crate::text::{repeat_exec, repeat_text, text_eq, text_le};
use vstd::prelude::*;

verus! {

/// The name of the root environment every organization has.
pub const DEFAULT_ENV_NAME: &'static str = "default";

/// An environment as the service lists it; `parent_name` is empty for the root.
#[derive(Clone, Debug, PartialEq)]
pub struct EnvironmentDetails {
    pub id: String,
    pub url: String,
    pub name: String,
    pub parent_name: String,
    pub parent_url: String,
    pub description: String,
    pub created_at: String,
    pub modified_at: String,
}

/// The names of the environments, in listing order.
pub open spec fn names_of(envs: Seq<EnvironmentDetails>) -> Seq<Seq<char>> {
    envs.map_values(|e: EnvironmentDetails| e.name@)
}

/// The positions among the first `n` environments whose parent is `parent`, in listing order.
pub open spec fn children_upto(envs: Seq<EnvironmentDetails>, parent: Seq<char>, n: nat) -> Seq<
    usize,
>
    decreases n,
{
    if n == 0 {
        Seq::empty()
    } else {
        let s = children_upto(envs, parent, (n - 1) as nat);
        if envs[n - 1].parent_name@ == parent {
            s.push((n - 1) as usize)
        } else {
            s
        }
    }
}

/// The positions of the children of `parent`, ordered by name (stably).
pub open spec fn child_positions(envs: Seq<EnvironmentDetails>, parent: Seq<char>) -> Seq<usize> {
    sorted_order(names_of(envs), children_upto(envs, parent, envs.len()))
}

/// Depth-first walk below the positions `cs`: each position with its level, followed by the
/// walk below its own children one level deeper. At most `depth` levels are walked, which
/// cuts a cycle of parent links short.
pub open spec fn walk(envs: Seq<EnvironmentDetails>, cs: Seq<usize>, level: usize, depth: nat) -> Seq<
    (usize, usize),
>
    decreases depth, cs.len(),
{
    if depth == 0 || cs.len() == 0 {
        Seq::empty()
    } else {
        seq![(level, cs[0])] + walk(
            envs,
            child_positions(envs, envs[cs[0] as int].name@),
            (level + 1) as usize,
            (depth - 1) as nat,
        ) + walk(envs, cs.drop_first(), level, depth)
    }
}

/// Levels enough to walk any tree of these environments.
pub open spec fn full_depth(envs: Seq<EnvironmentDetails>) -> nat {
    if envs.len() == 0 {
        0
    } else {
        (envs.len() - 1) as nat
    }
}

/// The depth-first walk below `parent`, starting at `level`.
pub open spec fn walk_below(envs: Seq<EnvironmentDetails>, parent: Seq<char>, level: usize) -> Seq<
    (usize, usize),
> {
    walk(envs, child_positions(envs, parent), level, full_depth(envs))
}

/// The urls of the walked environments.
pub open spec fn urls_of(envs: Seq<EnvironmentDetails>, w: Seq<(usize, usize)>) -> Seq<String> {
    w.map_values(|p: (usize, usize)| envs[p.1 as int].url)
}

/// The last position whose name is `name` among the first `n` environments.
pub open spec fn last_named(envs: Seq<EnvironmentDetails>, name: Seq<char>, n: nat) -> Option<nat>
    decreases n,
{
    if n == 0 {
        None
    } else if envs[n - 1].name@ == name {
        Some((n - 1) as nat)
    } else {
        last_named(envs, name, (n - 1) as nat)
    }
}

/// One line of the tree view: two spaces per level, then the name.
pub open spec fn tree_line(envs: Seq<EnvironmentDetails>, p: (usize, usize)) -> Seq<char> {
    repeat_text("  "@, p.0 as nat) + envs[p.1 as int].name@
}

fn name_keys(envs: &Vec<EnvironmentDetails>) -> (keys: Vec<String>)
    ensures
        text_views(keys@) == names_of(envs@),
{
    let mut keys: Vec<String> = Vec::new();
    let mut i: usize = 0;
    while i < envs.len()
        invariant
            i <= envs@.len(),
            keys@.len() == i,
            forall|j: int| 0 <= j < i ==> keys@[j]@ == envs@[j].name@,
        decreases envs@.len() - i,
    {
        keys.push(envs[i].name.clone());
        i = i + 1;
    }
    assert(text_views(keys@) =~= names_of(envs@));
    keys
}

fn find_children(envs: &Vec<EnvironmentDetails>, keys: &Vec<String>, parent: &str) -> (r: Vec<
    usize,
>)
    requires
        text_views(keys@) == names_of(envs@),
    ensures
        r@ == child_positions(envs@, parent@),
        forall|j: int| 0 <= j < r@.len() ==> r@[j] < envs@.len(),
{
    let mut idx: Vec<usize> = Vec::new();
    let mut i: usize = 0;
    while i < envs.len()
        invariant
            i <= envs@.len(),
            idx@ == children_upto(envs@, parent@, i as nat),
            forall|j: int| 0 <= j < idx@.len() ==> idx@[j] < i,
        decreases envs@.len() - i,
    {
        if text_eq(envs[i].parent_name.as_str(), parent) {
            idx.push(i);
        }
        i = i + 1;
    }
    assert(keys@.len() == text_views(keys@).len());
    sort_positions(keys, &idx)
}

fn walk_exec(
    envs: &Vec<EnvironmentDetails>,
    keys: &Vec<String>,
    parent: &str,
    level: usize,
    depth: usize,
) -> (r: Vec<(usize, usize)>)
    requires
        text_views(keys@) == names_of(envs@),
        level + depth <= envs@.len(),
    ensures
        r@ == walk(envs@, child_positions(envs@, parent@), level, depth as nat),
        forall|j: int| 0 <= j < r@.len() ==> r@[j].1 < envs@.len(),
    decreases depth,
{
    let mut out: Vec<(usize, usize)> = Vec::new();
    if depth == 0 {
        return out;
    }
    let total: usize = envs.len();
    let cs = find_children(envs, keys, parent);
    let ghost whole = walk(envs@, cs@, level, depth as nat);
    let mut k: usize = 0;
    assert(cs@.skip(0) =~= cs@);
    assert(out@ + whole =~= whole);
    while k < cs.len()
        invariant
            k <= cs@.len(),
            0 < depth,
            total == envs@.len(),
            level + depth <= envs@.len(),
            text_views(keys@) == names_of(envs@),
            forall|j: int| 0 <= j < cs@.len() ==> cs@[j] < envs@.len(),
            whole == walk(envs@, cs@, level, depth as nat),
            out@ + walk(envs@, cs@.skip(k as int), level, depth as nat) == whole,
            forall|j: int| 0 <= j < out@.len() ==> out@[j].1 < envs@.len(),
        decreases cs@.len() - k,
    {
        let c = cs[k];
        let ghost rest = cs@.skip(k as int);
        assert(rest[0] == c);
        assert(rest.drop_first() =~= cs@.skip(k + 1));
        let mut sub = walk_exec(envs, keys, envs[c].name.as_str(), level + 1, depth - 1);
        let ghost before = out@;
        out.push((level, c));
        out.append(&mut sub);
        assert(out@ + walk(envs@, cs@.skip(k + 1), level, depth as nat) =~= before + walk(
            envs@,
            rest,
            level,
            depth as nat,
        ));
        k = k + 1;
    }
    assert(cs@.skip(k as int) =~= Seq::<usize>::empty());
    assert(out@ =~= whole);
    out
}

fn full_depth_exec(envs: &Vec<EnvironmentDetails>) -> (d: usize)
    ensures
        d == full_depth(envs@),
{
    if envs.len() == 0 {
        0
    } else {
        envs.len() - 1
    }
}

/// The names of the children of `parent`, ordered by name.
pub fn children_of(parent: &str, environments: &Vec<EnvironmentDetails>) -> (r: Vec<String>)
    ensures
        r@ == child_positions(environments@, parent@).map_values(
            |i: usize| environments@[i as int].name,
        ),
{
    let keys = name_keys(environments);
    let cs = find_children(environments, &keys, parent);
    let mut out: Vec<String> = Vec::new();
    let mut k: usize = 0;
    while k < cs.len()
        invariant
            k <= cs@.len(),
            forall|j: int| 0 <= j < cs@.len() ==> cs@[j] < environments@.len(),
            out@ == cs@.take(k as int).map_values(|i: usize| environments@[i as int].name),
        decreases cs@.len() - k,
    {
        out.push(environments[cs[k]].name.clone());
        k = k + 1;
        assert(out@ =~= cs@.take(k as int).map_values(|i: usize| environments@[i as int].name));
    }
    assert(cs@.take(k as int) =~= cs@);
    out
}

fn urls_exec(envs: &Vec<EnvironmentDetails>, w: &Vec<(usize, usize)>) -> (r: Vec<String>)
    requires
        forall|j: int| 0 <= j < w@.len() ==> w@[j].1 < envs@.len(),
    ensures
        r@ == urls_of(envs@, w@),
{
    let mut out: Vec<String> = Vec::new();
    let mut k: usize = 0;
    while k < w.len()
        invariant
            k <= w@.len(),
            forall|j: int| 0 <= j < w@.len() ==> w@[j].1 < envs@.len(),
            out@ == urls_of(envs@, w@.take(k as int)),
        decreases w@.len() - k,
    {
        out.push(envs[w[k].1].url.clone());
        k = k + 1;
        assert(out@ =~= urls_of(envs@, w@.take(k as int)));
    }
    assert(w@.take(k as int) =~= w@);
    out
}

/// The urls of the environments below `parent_name`, depth first, children by name.
pub fn get_env_order_for(parent_name: &str, environments: &Vec<EnvironmentDetails>) -> (r: Vec<
    String,
>)
    ensures
        r@ == urls_of(environments@, walk_below(environments@, parent_name@, 0)),
{
    let keys = name_keys(environments);
    let w = walk_exec(environments, &keys, parent_name, 0, full_depth_exec(environments));
    urls_exec(environments, &w)
}

/// The order in which environments are shown: the root environment's url, then the urls
/// below it, depth first, children by name.
pub fn get_env_order(environments: &Vec<EnvironmentDetails>) -> (r: Vec<String>)
    requires
        last_named(environments@, DEFAULT_ENV_NAME@, environments@.len()).is_some(),
    ensures
        r@ == seq![
            environments@[last_named(
                environments@,
                DEFAULT_ENV_NAME@,
                environments@.len(),
            ).unwrap() as int].url,
        ] + urls_of(environments@, walk_below(environments@, DEFAULT_ENV_NAME@, 0)),
{
    let root = find_last_named(environments, DEFAULT_ENV_NAME).unwrap();
    let mut result: Vec<String> = Vec::new();
    result.push(environments[root].url.clone());
    let mut rest = get_env_order_for(DEFAULT_ENV_NAME, environments);
    result.append(&mut rest);
    result
}

/// The tree view below `start`: `start` itself, then every environment below it, depth
/// first, children by name, indented by two spaces per level. `None` when no environment is
/// named `start`.
pub fn env_tree_lines(start: &str, environments: &Vec<EnvironmentDetails>) -> (r: Option<
    Vec<String>,
>)
    ensures
        r.is_some() == last_named(environments@, start@, environments@.len()).is_some(),
        r.is_some() ==> text_views(r.unwrap()@) == seq![start@] + walk(
            environments@,
            child_positions(environments@, start@),
            1,
            (environments@.len() - 1) as nat,
        ).map_values(|p: (usize, usize)| tree_line(environments@, p)),
{
    if find_last_named(environments, start).is_none() {
        return None;
    }
    let keys = name_keys(environments);
    let w = walk_exec(environments, &keys, start, 1, environments.len() - 1);
    let ghost lines = w@.map_values(|p: (usize, usize)| tree_line(environments@, p));
    let mut out: Vec<String> = Vec::new();
    out.push(String::from_str(start));
    let mut k: usize = 0;
    while k < w.len()
        invariant
            k <= w@.len(),
            forall|j: int| 0 <= j < w@.len() ==> w@[j].1 < environments@.len(),
            lines == w@.map_values(|p: (usize, usize)| tree_line(environments@, p)),
            text_views(out@) == seq![start@] + lines.take(k as int),
        decreases w@.len() - k,
    {
        let (level, pos) = w[k];
        let mut line = repeat_exec("  ", level);
        line.append(environments[pos].name.as_str());
        assert(lines[k as int] == tree_line(environments@, w@[k as int]));
        assert(line@ == lines[k as int]);
        let ghost prev = out@;
        out.push(line);
        proof {
            let target = seq![start@] + lines.take(k + 1);
            assert(target =~= (seq![start@] + lines.take(k as int)).push(lines[k as int]));
            assert(text_views(out@) =~= text_views(prev).push(lines[k as int]));
        }
        k = k + 1;
    }
    assert(lines.take(k as int) =~= lines);
    Some(out)
}

} // verus!

verus! {

/// What `environment set` does.
#[derive(Clone, Debug, PartialEq)]
pub enum EnvSetAction {
    /// The environment exists and another parent was asked: parents cannot change.
    ParentChangeRefused,
    /// The environment exists and nothing to change was given.
    NothingToUpdate,
    /// Update the environment with this id, under this name.
    Update(String, String),
    /// Create the environment under the parent with this url.
    Create(String),
    /// The parent asked for does not exist.
    ParentMissing(String),
}

impl EnvSetAction {
    /// The process exit code, for the actions that stop the command.
    pub open spec fn code(&self) -> Option<i32> {
        match self {
            EnvSetAction::ParentChangeRefused => Some(6),
            EnvSetAction::ParentMissing(_) => Some(5),
            _ => None,
        }
    }

    pub fn exit_code(&self) -> (r: Option<i32>)
        ensures
            r == self.code(),
    {
        match self {
            EnvSetAction::ParentChangeRefused => Some(6),
            EnvSetAction::ParentMissing(_) => Some(5),
            _ => None,
        }
    }
}

/// Decides `environment set` for `env_name` among `environments`: an existing environment is
/// renamed or described (its parent cannot change); a new one is created under `parent_name`,
/// the root environment when none is given.
pub fn env_set_action(
    env_name: &str,
    parent_name: Option<&str>,
    description_given: bool,
    rename: Option<&str>,
    environments: &Vec<EnvironmentDetails>,
) -> (r: EnvSetAction)
    ensures
        match last_named(environments@, env_name@, environments@.len()) {
            Some(i) => {
                let e = environments@[i as int];
                if parent_name.is_some() && parent_name.unwrap()@ != e.parent_name@ {
                    r == EnvSetAction::ParentChangeRefused
                } else if !description_given && rename.is_none() {
                    r == EnvSetAction::NothingToUpdate
                } else {
                    r is Update && r->Update_0@ == e.id@ && r->Update_1@ == (match rename {
                        Some(n) => n@,
                        None => env_name@,
                    })
                }
            },
            None => {
                let p = match parent_name {
                    Some(n) => n@,
                    None => DEFAULT_ENV_NAME@,
                };
                match last_named(environments@, p, environments@.len()) {
                    Some(j) => r is Create && r->Create_0@ == environments@[j as int].url@,
                    None => r is ParentMissing && r->ParentMissing_0@ == p,
                }
            },
        },
{
    match find_last_named(environments, env_name) {
        Some(i) => {
            let e = &environments[i];
            if parent_name.is_some() && !text_eq(parent_name.unwrap(), e.parent_name.as_str()) {
                EnvSetAction::ParentChangeRefused
            } else if !description_given && rename.is_none() {
                EnvSetAction::NothingToUpdate
            } else {
                let name = match rename {
                    Some(n) => String::from_str(n),
                    None => String::from_str(env_name),
                };
                EnvSetAction::Update(e.id.clone(), name)
            }
        },
        None => {
            let p = match parent_name {
                Some(n) => n,
                None => DEFAULT_ENV_NAME,
            };
            match find_last_named(environments, p) {
                Some(j) => EnvSetAction::Create(environments[j].url.clone()),
                None => EnvSetAction::ParentMissing(String::from_str(p)),
            }
        },
    }
}

/// The position of the last environment named `name`.
pub fn find_last_named(envs: &Vec<EnvironmentDetails>, name: &str) -> (r: Option<usize>)
    ensures
        match r {
            Some(i) => last_named(envs@, name@, envs@.len()) == Some(i as nat) && i < envs@.len(),
            None => last_named(envs@, name@, envs@.len()).is_none(),
        },
{
    let mut i: usize = envs.len();
    while i > 0 && !text_eq(envs[i - 1].name.as_str(), name)
        invariant
            i <= envs@.len(),
            last_named(envs@, name@, envs@.len()) == last_named(envs@, name@, i as nat),
        decreases i,
    {
        i = i - 1;
    }
    if i == 0 {
        None
    } else {
        Some(i - 1)
    }
}

} // verus!

verus! {

/// The children of an environment are in order of their names.
pub proof fn lemma_children_ordered(envs: Seq<EnvironmentDetails>, parent: Seq<char>)
    requires
        envs.len() <= usize::MAX,
    ensures
        forall|i: int, j: int|
            0 <= i < j < child_positions(envs, parent).len() ==> text_le(
                envs[#[trigger] child_positions(envs, parent)[i] as int].name@,
                envs[#[trigger] child_positions(envs, parent)[j] as int].name@,
            ),
{
    let keys = names_of(envs);
    let idx = children_upto(envs, parent, envs.len());
    lemma_children_bound(envs, parent, envs.len());
    lemma_sorted_order_ordered(keys, idx);
    let c = child_positions(envs, parent);
    assert forall|i: int, j: int| 0 <= i < j < c.len() implies text_le(
        envs[#[trigger] c[i] as int].name@,
        envs[#[trigger] c[j] as int].name@,
    ) by {
        assert(text_le(keys[c[i] as int], keys[c[j] as int]));
        lemma_position_in_range(keys, idx, envs.len(), c[i]);
        lemma_position_in_range(keys, idx, envs.len(), c[j]);
    }
}

proof fn lemma_children_bound(envs: Seq<EnvironmentDetails>, parent: Seq<char>, n: nat)
    requires
        n <= usize::MAX,
    ensures
        forall|i: int|
            0 <= i < children_upto(envs, parent, n).len() ==> #[trigger] children_upto(
                envs,
                parent,
                n,
            )[i] < n,
    decreases n,
{
    if n > 0 {
        lemma_children_bound(envs, parent, (n - 1) as nat);
        let s = children_upto(envs, parent, (n - 1) as nat);
        let t = children_upto(envs, parent, n);
        assert forall|i: int| 0 <= i < t.len() implies #[trigger] t[i] < n by {
            if i < s.len() {
                assert(t[i] == s[i]);
            }
        }
    }
}

proof fn lemma_position_in_range(keys: Seq<Seq<char>>, idx: Seq<usize>, n: nat, x: usize)
    requires
        forall|i: int| 0 <= i < idx.len() ==> #[trigger] idx[i] < n,
        sorted_order(keys, idx).contains(x),
    ensures
        x < n,
{
    lemma_sorted_members(keys, idx, x);
    let j = choose|j: int| 0 <= j < idx.len() && idx[j] == x;
}

} // verus!
