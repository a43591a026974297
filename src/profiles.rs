//! Configuration profiles: a profile may take its defaults from a source profile, and
//! explicit flags and environment variables come before any profile setting.
use crate::text::text_eq;
use vstd::prelude::*;

verus! {

/// One named profile of the configuration file.
#[derive(Clone, Debug, PartialEq)]
pub struct Profile {
    pub name: String,
    pub api_key: Option<String>,
    pub server_url: Option<String>,
    pub project: Option<String>,
    pub environment: Option<String>,
    /// The profile this one takes its defaults from.
    pub source: Option<String>,
}

/// The settings a profile chain resolves to.
#[derive(Clone, Debug, PartialEq)]
pub struct ProfileSettings {
    pub api_key: Option<String>,
    pub server_url: Option<String>,
    pub project: Option<String>,
    pub environment: Option<String>,
}

/// Why a profile cannot be resolved.
#[derive(Clone, Debug, PartialEq)]
pub enum ProfileError {
    /// No profile has this name.
    NotFound(String),
    /// Following sources comes back to this profile.
    Circular(String),
}

/// The position of the first profile named `name`.
pub open spec fn profile_pos(ps: Seq<Profile>, name: Seq<char>, n: nat) -> Option<nat>
    decreases n,
{
    if n == 0 {
        None
    } else {
        match profile_pos(ps, name, (n - 1) as nat) {
            Some(i) => Some(i),
            None => if ps[n - 1].name@ == name {
                Some((n - 1) as nat)
            } else {
                None
            },
        }
    }
}

/// The name a resolution stops at, and why.
pub enum ChainFault {
    Missing(Seq<char>),
    Cycle(Seq<char>),
}

/// What a profile error says.
pub open spec fn fault_of(e: ProfileError) -> ChainFault {
    match e {
        ProfileError::NotFound(n) => ChainFault::Missing(n@),
        ProfileError::Circular(n) => ChainFault::Cycle(n@),
    }
}

/// Whether `name` is among the names `seen`.
pub open spec fn seen_name(seen: Seq<Seq<char>>, name: Seq<char>) -> bool {
    exists|i: int| 0 <= i < seen.len() && seen[i] == name
}

/// The positions of the profiles from `name` along their sources, the named one first, after
/// the names `seen`. Coming back to a seen name is a cycle; at most `fuel` profiles are taken,
/// and more than that (which needs a repeated profile) counts as a cycle too.
pub open spec fn chain_from(ps: Seq<Profile>, name: Seq<char>, seen: Seq<Seq<char>>, fuel: nat) -> Result<
    Seq<nat>,
    ChainFault,
>
    decreases fuel,
{
    if seen_name(seen, name) {
        Err(ChainFault::Cycle(name))
    } else {
        match profile_pos(ps, name, ps.len()) {
            None => Err(ChainFault::Missing(name)),
            Some(i) => if fuel == 0 {
                Err(ChainFault::Cycle(name))
            } else {
                match ps[i as int].source {
                    None => Ok(seq![i]),
                    Some(src) => match chain_from(ps, src@, seen.push(name), (fuel - 1) as nat) {
                        Ok(rest) => Ok(seq![i] + rest),
                        Err(e) => Err(e),
                    },
                }
            },
        }
    }
}

} // verus!

verus! {

/// `o`, or `base` where `o` is unset.
pub open spec fn or_base(o: Option<String>, base: Option<String>) -> Option<String> {
    match o {
        Some(x) => Some(x),
        None => base,
    }
}

/// The settings of the profiles at `chain`: each profile's own settings come before those of
/// the profiles after it (its sources).
pub open spec fn merged(ps: Seq<Profile>, chain: Seq<nat>) -> (Option<String>, Option<String>, Option<String>, Option<String>)
    decreases chain.len(),
{
    if chain.len() == 0 {
        (None, None, None, None)
    } else {
        let base = merged(ps, chain.drop_first());
        let p = ps[chain[0] as int];
        (
            or_base(p.api_key, base.0),
            or_base(p.server_url, base.1),
            or_base(p.project, base.2),
            or_base(p.environment, base.3),
        )
    }
}

fn position_of(ps: &Vec<Profile>, name: &str) -> (r: Option<usize>)
    ensures
        match r {
            Some(i) => profile_pos(ps@, name@, ps@.len()) == Some(i as nat) && i < ps@.len(),
            None => profile_pos(ps@, name@, ps@.len()).is_none(),
        },
{
    let mut i: usize = 0;
    while i < ps.len()
        invariant
            i <= ps@.len(),
            profile_pos(ps@, name@, i as nat).is_none(),
        decreases ps@.len() - i,
    {
        if text_eq(ps[i].name.as_str(), name) {
            proof {
                lemma_profile_pos_stable(ps@, name@, (i + 1) as nat, ps@.len());
            }
            return Some(i);
        }
        i = i + 1;
    }
    None
}

proof fn lemma_profile_pos_stable(ps: Seq<Profile>, name: Seq<char>, m: nat, n: nat)
    requires
        m <= n,
        profile_pos(ps, name, m).is_some(),
    ensures
        profile_pos(ps, name, n) == profile_pos(ps, name, m),
    decreases n - m,
{
    if m < n {
        lemma_profile_pos_stable(ps, name, m, (n - 1) as nat);
    }
}

fn opt_clone(o: &Option<String>) -> (r: Option<String>)
    ensures
        r == *o,
{
    match o {
        Some(s) => Some(s.clone()),
        None => None,
    }
}

fn seen_exec(seen: &Vec<String>, name: &str) -> (r: bool)
    ensures
        r == seen_name(seen@.map_values(|s: String| s@), name@),
{
    let ghost sv = seen@.map_values(|s: String| s@);
    let mut i: usize = 0;
    while i < seen.len()
        invariant
            i <= seen@.len(),
            sv == seen@.map_values(|s: String| s@),
            forall|j: int| 0 <= j < i ==> sv[j] != name@,
        decreases seen@.len() - i,
    {
        assert(sv[i as int] == seen@[i as int]@);
        if text_eq(seen[i].as_str(), name) {
            return true;
        }
        i = i + 1;
    }
    false
}

/// The settings of the profile `name`: its own, and where it leaves one unset, those of its
/// source, and so on. A missing profile or a source that leads back is an error.
pub fn resolve_profile(name: &str, profiles: &Vec<Profile>) -> (r: Result<ProfileSettings, ProfileError>)
    ensures
        match chain_from(profiles@, name@, Seq::empty(), profiles@.len() as nat) {
            Ok(chain) => r is Ok && {
                let m = merged(profiles@, chain);
                &&& r->Ok_0.api_key == m.0
                &&& r->Ok_0.server_url == m.1
                &&& r->Ok_0.project == m.2
                &&& r->Ok_0.environment == m.3
            },
            Err(f) => r is Err && fault_of(r->Err_0) == f,
        },
{
    let mut chain: Vec<usize> = Vec::new();
    let mut seen: Vec<String> = Vec::new();
    let mut current = String::from_str(name);
    let mut fuel: usize = profiles.len();
    let ghost whole = chain_from(profiles@, name@, Seq::empty(), profiles@.len() as nat);
    assert(seen@.map_values(|s: String| s@) =~= Seq::<Seq<char>>::empty());
    loop
        invariant
            whole == chain_from(profiles@, name@, Seq::empty(), profiles@.len() as nat),
            forall|j: int| 0 <= j < chain@.len() ==> chain@[j] < profiles@.len(),
            match chain_from(
                profiles@,
                current@,
                seen@.map_values(|s: String| s@),
                fuel as nat,
            ) {
                Ok(rest) => whole == Ok::<Seq<nat>, ChainFault>(
                    chain@.map_values(|i: usize| i as nat) + rest,
                ),
                Err(f) => whole == Err::<Seq<nat>, ChainFault>(f),
            },
        decreases fuel,
    {
        if seen_exec(&seen, current.as_str()) {
            return Err(ProfileError::Circular(current));
        }
        let pos = match position_of(profiles, current.as_str()) {
            Some(i) => i,
            None => {
                return Err(ProfileError::NotFound(current));
            },
        };
        if fuel == 0 {
            return Err(ProfileError::Circular(current));
        }
        let ghost prev_chain = chain@;
        let ghost prev_seen = seen@;
        chain.push(pos);
        seen.push(current);
        assert(seen@.map_values(|s: String| s@) =~= prev_seen.map_values(|s: String| s@).push(
            seen@[seen@.len() - 1]@,
        ));
        assert(chain@.map_values(|i: usize| i as nat) =~= prev_chain.map_values(
            |i: usize| i as nat,
        ).push(pos as nat));
        match &profiles[pos].source {
            None => {
                let settings = build_settings(profiles, &chain);
                assert(whole == Ok::<Seq<nat>, ChainFault>(
                    chain@.map_values(|i: usize| i as nat),
                )) by {
                    assert(prev_chain.map_values(|i: usize| i as nat) + seq![pos as nat]
                        =~= chain@.map_values(|i: usize| i as nat));
                }
                return Ok(settings);
            },
            Some(src) => {
                current = src.clone();
                fuel = fuel - 1;
                proof {
                    let pc = prev_chain.map_values(|i: usize| i as nat);
                    let nc = chain@.map_values(|i: usize| i as nat);
                    match chain_from(
                        profiles@,
                        current@,
                        seen@.map_values(|s: String| s@),
                        fuel as nat,
                    ) {
                        Ok(rest) => {
                            assert(pc + (seq![pos as nat] + rest) =~= nc + rest);
                        },
                        Err(f) => {},
                    }
                }
            },
        }
    }
}

fn build_settings(profiles: &Vec<Profile>, chain: &Vec<usize>) -> (r: ProfileSettings)
    requires
        forall|j: int| 0 <= j < chain@.len() ==> chain@[j] < profiles@.len(),
    ensures
        ({
            let m = merged(profiles@, chain@.map_values(|i: usize| i as nat));
            &&& r.api_key == m.0
            &&& r.server_url == m.1
            &&& r.project == m.2
            &&& r.environment == m.3
        }),
{
    let mut settings = ProfileSettings { api_key: None, server_url: None, project: None, environment: None };
    let ghost cn = chain@.map_values(|i: usize| i as nat);
    let mut k: usize = chain.len();
    assert(cn.skip(k as int) =~= Seq::<nat>::empty());
    while k > 0
        invariant
            k <= chain@.len(),
            cn == chain@.map_values(|i: usize| i as nat),
            forall|j: int| 0 <= j < chain@.len() ==> chain@[j] < profiles@.len(),
            ({
                let m = merged(profiles@, cn.skip(k as int));
                &&& settings.api_key == m.0
                &&& settings.server_url == m.1
                &&& settings.project == m.2
                &&& settings.environment == m.3
            }),
        decreases k,
    {
        k = k - 1;
        let p = &profiles[chain[k]];
        assert(cn.skip(k as int).drop_first() =~= cn.skip(k + 1));
        assert(cn.skip(k as int)[0] == chain@[k as int] as nat);
        if p.api_key.is_some() {
            settings.api_key = opt_clone(&p.api_key);
        }
        if p.server_url.is_some() {
            settings.server_url = opt_clone(&p.server_url);
        }
        if p.project.is_some() {
            settings.project = opt_clone(&p.project);
        }
        if p.environment.is_some() {
            settings.environment = opt_clone(&p.environment);
        }
    }
    assert(cn.skip(0) =~= cn);
    settings
}

/// A setting: the explicit flag first, then the environment variable, then the profile.
pub fn pick_setting(flag: Option<String>, env_var: Option<String>, profile: Option<String>) -> (r: Option<String>)
    ensures
        r == or_base(flag, or_base(env_var, profile)),
{
    match flag {
        Some(f) => Some(f),
        None => match env_var {
            Some(e) => Some(e),
            None => profile,
        },
    }
}

} // verus!
