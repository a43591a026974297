//! Name resolution: names to ids, environment urls to names, an environment's ancestors, and
//! the tag that an as-of text names.
use crate::environments::{find_last_named, last_named, EnvironmentDetails};
use crate::models::Tag;
use crate::text::text_eq;
use vstd::prelude::*;

verus! {

/// Names and the ids they stand for, as the service listed them; built once per command.
#[derive(Clone, Debug, PartialEq)]
pub struct NameMap {
    pub entries: Vec<(String, String)>,
}

/// The id of the first entry named `name`.
pub open spec fn id_for(entries: Seq<(String, String)>, name: Seq<char>) -> Option<Seq<char>>
    decreases entries.len(),
{
    if entries.len() == 0 {
        None
    } else if entries[0].0@ == name {
        Some(entries[0].1@)
    } else {
        id_for(entries.drop_first(), name)
    }
}

impl NameMap {
    pub fn new() -> (r: NameMap)
        ensures
            r.entries@.len() == 0,
    {
        NameMap { entries: Vec::new() }
    }

    /// Records one name and its id; an earlier entry of the same name keeps precedence.
    pub fn insert(&mut self, name: String, id: String)
        ensures
            final(self).entries@ == old(self).entries@.push((name, id)),
    {
        self.entries.push((name, id));
    }

    /// The id a name stands for, if the service listed it.
    pub fn get_id(&self, name: &str) -> (r: Option<String>)
        ensures
            r.deep_view() == id_for(self.entries@, name@),
    {
        let mut i: usize = 0;
        assert(self.entries@.skip(0) =~= self.entries@);
        while i < self.entries.len()
            invariant
                i <= self.entries@.len(),
                id_for(self.entries@, name@) == id_for(self.entries@.skip(i as int), name@),
            decreases self.entries@.len() - i,
        {
            assert(self.entries@.skip(i as int).drop_first() =~= self.entries@.skip(i + 1));
            if text_eq(self.entries[i].0.as_str(), name) {
                return Some(self.entries[i].1.clone());
            }
            i = i + 1;
        }
        None
    }
}

/// The map from environment names to ids.
pub fn environment_ids(environments: &Vec<EnvironmentDetails>) -> (r: NameMap)
    ensures
        r.entries@.len() == environments@.len(),
        forall|i: int|
            0 <= i < environments@.len() ==> r.entries@[i].0@ == environments@[i].name@
                && r.entries@[i].1@ == environments@[i].id@,
{
    let mut m = NameMap::new();
    let mut i: usize = 0;
    while i < environments.len()
        invariant
            i <= environments@.len(),
            m.entries@.len() == i,
            forall|j: int|
                0 <= j < i ==> m.entries@[j].0@ == environments@[j].name@ && m.entries@[j].1@
                    == environments@[j].id@,
        decreases environments@.len() - i,
    {
        m.insert(environments[i].name.clone(), environments[i].id.clone());
        i = i + 1;
    }
    m
}

/// The map from environment urls to names.
pub fn environment_url_names(environments: &Vec<EnvironmentDetails>) -> (r: NameMap)
    ensures
        r.entries@.len() == environments@.len(),
        forall|i: int|
            0 <= i < environments@.len() ==> r.entries@[i].0@ == environments@[i].url@
                && r.entries@[i].1@ == environments@[i].name@,
{
    let mut m = NameMap::new();
    let mut i: usize = 0;
    while i < environments.len()
        invariant
            i <= environments@.len(),
            m.entries@.len() == i,
            forall|j: int|
                0 <= j < i ==> m.entries@[j].0@ == environments@[j].url@ && m.entries@[j].1@
                    == environments@[j].name@,
        decreases environments@.len() - i,
    {
        m.insert(environments[i].url.clone(), environments[i].name.clone());
        i = i + 1;
    }
    m
}

/// The urls of the ancestors of the environment at position `pos`, parent first, following
/// parent names for at most `steps` links (which cuts a cycle short).
pub open spec fn ancestors_from(envs: Seq<EnvironmentDetails>, pos: nat, steps: nat) -> Seq<String>
    decreases steps,
{
    if steps == 0 {
        Seq::empty()
    } else {
        match last_named(envs, envs[pos as int].parent_name@, envs.len()) {
            None => Seq::empty(),
            Some(p) => seq![envs[p as int].url] + ancestors_from(envs, p, (steps - 1) as nat),
        }
    }
}

/// The urls of the ancestors of the environment `env_name`, parent first; empty when no
/// environment has that name. Parent links are followed at most once per environment.
pub fn ancestor_urls(env_name: &str, environments: &Vec<EnvironmentDetails>) -> (r: Vec<String>)
    ensures
        match last_named(environments@, env_name@, environments@.len()) {
            Some(p) => r@ == ancestors_from(environments@, p, environments@.len()),
            None => r@.len() == 0,
        },
{
    let mut out: Vec<String> = Vec::new();
    let start = find_last_named(environments, env_name);
    match start {
        None => out,
        Some(p0) => {
            let ghost whole = ancestors_from(environments@, p0 as nat, environments@.len());
            let mut pos: usize = p0;
            let mut steps: usize = environments.len();
            while steps > 0
                invariant
                    pos < environments@.len(),
                    steps <= environments@.len(),
                    whole == ancestors_from(environments@, p0 as nat, environments@.len()),
                    last_named(environments@, env_name@, environments@.len()) == Some(p0 as nat),
                    out@ + ancestors_from(environments@, pos as nat, steps as nat) == whole,
                decreases steps,
            {
                let parent = find_last_named(environments, environments[pos].parent_name.as_str());
                match parent {
                    None => {
                        assert(out@ =~= whole);
                        return out;
                    },
                    Some(p) => {
                        let ghost prev = out@;
                        out.push(environments[p].url.clone());
                        assert(out@ + ancestors_from(environments@, p as nat, (steps - 1) as nat)
                            =~= prev + ancestors_from(environments@, pos as nat, steps as nat));
                        pos = p;
                        steps = steps - 1;
                    },
                }
            }
            assert(out@ =~= whole);
            out
        },
    }
}

/// Whether a tag name uses only letters, digits, `.`, `_` and `-`.
pub open spec fn valid_tag_name(name: Seq<char>) -> bool {
    name.len() > 0 && forall|i: int|
        0 <= i < name.len() ==> ('a' <= name[i] <= 'z' || 'A' <= name[i] <= 'Z' || '0' <= name[i]
            <= '9' || name[i] == '.' || name[i] == '_' || name[i] == '-')
}

/// Whether `name` may name a tag.
pub fn is_valid_tag_name(name: &str) -> (r: bool)
    ensures
        r == valid_tag_name(name@),
{
    let v = crate::text::to_chars(name);
    if v.len() == 0 {
        return false;
    }
    let mut i: usize = 0;
    while i < v.len()
        invariant
            i <= v@.len(),
            v@ == name@,
            forall|j: int|
                0 <= j < i ==> ('a' <= v@[j] <= 'z' || 'A' <= v@[j] <= 'Z' || '0' <= v@[j] <= '9'
                    || v@[j] == '.' || v@[j] == '_' || v@[j] == '-'),
        decreases v@.len() - i,
    {
        let c = v[i];
        if !(('a' <= c && c <= 'z') || ('A' <= c && c <= 'Z') || ('0' <= c && c <= '9') || c == '.'
            || c == '_' || c == '-') {
            return false;
        }
        i = i + 1;
    }
    true
}

/// Why a tag gives no point in time.
#[derive(Clone, Debug, PartialEq)]
pub enum TagError {
    /// A tag is meaningful for one environment only, and the operation spans several.
    InvalidUsage,
    /// The environment has no tag of that name.
    NotFound(String),
}

/// The first tag of `tags` named `name` (names are case-sensitive).
pub open spec fn tag_named(tags: Seq<Tag>, name: Seq<char>) -> Option<Tag>
    decreases tags.len(),
{
    if tags.len() == 0 {
        None
    } else if tags[0].name@ == name {
        Some(tags[0])
    } else {
        tag_named(tags.drop_first(), name)
    }
}

/// The point in time a tag stands for, looked up among the tags of the one environment an
/// operation targets.
pub fn tag_time(tag_name: &str, target_envs: usize, env_tags: &Vec<Tag>) -> (r: Result<String, TagError>)
    ensures
        target_envs != 1 ==> r == Err::<String, TagError>(TagError::InvalidUsage),
        target_envs == 1 ==> match tag_named(env_tags@, tag_name@) {
            Some(t) => r is Ok && r->Ok_0@ == t.timestamp@,
            None => r is Err && match r->Err_0 {
                TagError::NotFound(n) => n@ == tag_name@,
                TagError::InvalidUsage => false,
            },
        },
{
    if target_envs != 1 {
        return Err(TagError::InvalidUsage);
    }
    let mut i: usize = 0;
    assert(env_tags@.skip(0) =~= env_tags@);
    while i < env_tags.len()
        invariant
            i <= env_tags@.len(),
            target_envs == 1,
            tag_named(env_tags@, tag_name@) == tag_named(env_tags@.skip(i as int), tag_name@),
        decreases env_tags@.len() - i,
    {
        assert(env_tags@.skip(i as int).drop_first() =~= env_tags@.skip(i + 1));
        if text_eq(env_tags[i].name.as_str(), tag_name) {
            return Ok(env_tags[i].timestamp.clone());
        }
        i = i + 1;
    }
    Err(TagError::NotFound(String::from_str(tag_name)))
}

} // verus!
