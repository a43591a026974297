//! Parameter details: one flat record per parameter in one environment, and the property
//! projection every listing goes through.
use crate::models::{Parameter, ParameterRule, ParameterRuleTypeEnum, Value};
use crate::order::text_views;
use crate::resolver::{id_for, NameMap};
use crate::text::{decimal, push_decimal, text_eq};
use vstd::prelude::*;

verus! {

/// What a secret shows when secrets are masked.
pub const REDACTED: &'static str = "*****";

/// What a parameter without any value in the environment shows.
pub const UNSET_VALUE: &'static str = "-";

/// A parameter merged with its value in one environment.
#[derive(Clone, Debug, PartialEq)]
pub struct ParameterDetails {
    pub id: String,
    pub key: String,
    pub value: String,
    pub raw_value: String,
    pub description: String,
    pub secret: bool,
    pub param_type: String,
    pub rules: Vec<ParameterRule>,
    pub project_url: String,
    pub project_name: String,
    /// The url of the environment the value comes from.
    pub env_url: String,
    /// The name of the environment the value comes from.
    pub env_name: String,
    pub val_id: String,
    pub fqn: String,
    pub jmes_path: String,
    pub evaluated: bool,
    pub external: bool,
    /// Whether the value is set directly in the queried environment.
    pub _override: bool,
    pub created_at: String,
    pub modified_at: String,
    pub error: String,
}

/// The name an environment url stands for in `env_names`, empty when it is not there.
pub open spec fn name_of_url(env_names: Seq<(String, String)>, url: Seq<char>) -> Seq<char> {
    match id_for(env_names, url) {
        Some(n) => n,
        None => Seq::empty(),
    }
}

/// The text of an optional text, empty when absent.
pub open spec fn opt_text(o: Option<String>) -> Seq<char> {
    match o {
        Some(s) => s@,
        None => Seq::empty(),
    }
}

/// The value record stored under `url`: the first entry with that key; `None` when there is
/// no such entry or it holds no record.
pub open spec fn value_at(values: Seq<(String, Option<Value>)>, url: Seq<char>) -> Option<Value>
    decreases values.len(),
{
    if values.len() == 0 {
        None
    } else if values[0].0@ == url {
        values[0].1
    } else {
        value_at(values.drop_first(), url)
    }
}

/// The first record found along `chain`, a list of environment urls.
pub open spec fn first_value(values: Seq<(String, Option<Value>)>, chain: Seq<String>) -> Option<
    Value,
>
    decreases chain.len(),
{
    if chain.len() == 0 {
        None
    } else {
        match value_at(values, chain[0]@) {
            Some(v) => Some(v),
            None => first_value(values, chain.drop_first()),
        }
    }
}

/// The value a parameter has in the environment `env_url`: its own record there, or else the
/// record of the nearest of `ancestors` (parent first) that has one.
pub open spec fn effective_value(p: Parameter, env_url: String, ancestors: Seq<String>) -> Option<
    Value,
> {
    first_value(p.values@, seq![env_url] + ancestors)
}

/// `d` is the detail record of `p` queried in `env_url`.
pub open spec fn detail_of(
    p: Parameter,
    env_url: String,
    ancestors: Seq<String>,
    env_names: Seq<(String, String)>,
    mask_secrets: bool,
    d: ParameterDetails,
) -> bool {
    let v = effective_value(p, env_url, ancestors);
    let secret = p.secret == Some(true);
    let masked = mask_secrets && secret && v.is_some();
    &&& d.id@ == p.id@
    &&& d.key@ == p.name@
    &&& d.description@ == opt_text(p.description)
    &&& d.secret == secret
    &&& d.param_type@ == opt_text(p._type)
    &&& d.rules == p.rules
    &&& d.project_url@ == p.project@
    &&& d.project_name@ == p.project_name@
    &&& d.created_at@ == p.created_at@
    &&& d.modified_at@ == p.modified_at@
    &&& d._override == (v.is_some() && v.unwrap().environment@ == env_url@)
    &&& match v {
        None => {
            &&& d.value@ == UNSET_VALUE@
            &&& d.raw_value@ == Seq::<char>::empty()
            &&& d.env_url@ == Seq::<char>::empty()
            &&& d.env_name@ == Seq::<char>::empty()
            &&& d.val_id@ == Seq::<char>::empty()
            &&& d.fqn@ == Seq::<char>::empty()
            &&& d.jmes_path@ == Seq::<char>::empty()
            &&& d.error@ == Seq::<char>::empty()
            &&& !d.evaluated
            &&& !d.external
        },
        Some(val) => {
            &&& d.value@ == (if masked {
                REDACTED@
            } else {
                opt_text(val.value)
            })
            &&& d.raw_value@ == (if masked {
                REDACTED@
            } else {
                opt_text(val.internal_value)
            })
            &&& d.env_url@ == val.environment@
            &&& d.env_name@ == name_of_url(env_names, val.environment@)
            &&& d.val_id@ == val.id@
            &&& d.fqn@ == opt_text(val.external_fqn)
            &&& d.jmes_path@ == opt_text(val.external_filter)
            &&& d.error@ == opt_text(val.external_error)
            &&& d.evaluated == val.evaluated
            &&& d.external == val.external
        },
    }
}

fn text_or_empty(o: &Option<String>) -> (r: String)
    ensures
        r@ == opt_text(*o),
{
    match o {
        Some(s) => s.clone(),
        None => String::new(),
    }
}

fn position_at(values: &Vec<(String, Option<Value>)>, url: &str) -> (r: Option<usize>)
    ensures
        match r {
            Some(i) => i < values@.len() && values@[i as int].1 == value_at(values@, url@)
                && value_at(values@, url@).is_some(),
            None => value_at(values@, url@).is_none(),
        },
{
    let mut i: usize = 0;
    assert(values@.skip(0) =~= values@);
    while i < values.len()
        invariant
            i <= values@.len(),
            value_at(values@, url@) == value_at(values@.skip(i as int), url@),
        decreases values@.len() - i,
    {
        assert(values@.skip(i as int).drop_first() =~= values@.skip(i + 1));
        if text_eq(values[i].0.as_str(), url) {
            if values[i].1.is_some() {
                return Some(i);
            } else {
                return None;
            }
        }
        i = i + 1;
    }
    None
}

fn effective_position(values: &Vec<(String, Option<Value>)>, env_url: &String, ancestors: &Vec<
    String,
>) -> (r: Option<usize>)
    ensures
        match r {
            Some(i) => i < values@.len() && values@[i as int].1 == first_value(
                values@,
                seq![*env_url] + ancestors@,
            ) && first_value(values@, seq![*env_url] + ancestors@).is_some(),
            None => first_value(values@, seq![*env_url] + ancestors@).is_none(),
        },
{
    let ghost chain = seq![*env_url] + ancestors@;
    assert(chain.drop_first() =~= ancestors@);
    let first = position_at(values, env_url.as_str());
    if first.is_some() {
        return first;
    }
    let mut k: usize = 0;
    assert(ancestors@.skip(0) =~= ancestors@);
    while k < ancestors.len()
        invariant
            k <= ancestors@.len(),
            chain == seq![*env_url] + ancestors@,
            first_value(values@, chain) == first_value(values@, ancestors@.skip(k as int)),
        decreases ancestors@.len() - k,
    {
        assert(ancestors@.skip(k as int).drop_first() =~= ancestors@.skip(k + 1));
        let found = position_at(values, ancestors[k].as_str());
        if found.is_some() {
            return found;
        }
        k = k + 1;
    }
    None
}

impl ParameterDetails {
    /// The detail record of a parameter queried in the environment `env_url`, whose ancestors
    /// are `ancestors` (parent first). The value comes from the environment itself or else
    /// from the nearest ancestor that has one; `_override` tells whether that record belongs
    /// to the queried environment. Secret values show as `REDACTED` when `mask_secrets`.
    pub fn from_parameter(
        param: Parameter,
        env_url: &String,
        ancestors: &Vec<String>,
        env_names: &NameMap,
        mask_secrets: bool,
    ) -> (r: ParameterDetails)
        ensures
            detail_of(param, *env_url, ancestors@, env_names.entries@, mask_secrets, r),
    {
        let ghost p = param;
        let pos = effective_position(&param.values, env_url, ancestors);
        let secret = match param.secret {
            Some(b) => b,
            None => false,
        };
        let mut value = String::from_str(UNSET_VALUE);
        let mut raw_value = String::new();
        let mut val_env_url = String::new();
        let mut env_name = String::new();
        let mut val_id = String::new();
        let mut fqn = String::new();
        let mut jmes_path = String::new();
        let mut error = String::new();
        let mut evaluated = false;
        let mut external = false;
        let mut direct = false;
        match pos {
            Some(i) => {
                let entry = &param.values[i];
                match &entry.1 {
                    Some(v) => {
                        if mask_secrets && secret {
                            value = String::from_str(REDACTED);
                            raw_value = String::from_str(REDACTED);
                        } else {
                            value = text_or_empty(&v.value);
                            raw_value = text_or_empty(&v.internal_value);
                        }
                        val_env_url = v.environment.clone();
                        env_name = match env_names.get_id(v.environment.as_str()) {
                            Some(n) => n,
                            None => String::new(),
                        };
                        val_id = v.id.clone();
                        fqn = text_or_empty(&v.external_fqn);
                        jmes_path = text_or_empty(&v.external_filter);
                        error = text_or_empty(&v.external_error);
                        evaluated = v.evaluated;
                        external = v.external;
                        direct = v.environment == *env_url;
                    },
                    None => {},
                }
            },
            None => {},
        }
        let description = text_or_empty(&param.description);
        let param_type = text_or_empty(&param._type);
        ParameterDetails {
            id: param.id,
            key: param.name,
            value,
            raw_value,
            description,
            secret,
            param_type,
            rules: param.rules,
            project_url: param.project,
            project_name: param.project_name,
            env_url: val_env_url,
            env_name,
            val_id,
            fqn,
            jmes_path,
            evaluated,
            external,
            _override: direct,
            created_at: param.created_at,
            modified_at: param.modified_at,
            error,
        }
    }
}

/// Override symmetry: a detail record marks its value as an override exactly when the value
/// record it shows belongs to the queried environment.
pub proof fn lemma_override_symmetry(
    p: Parameter,
    env_url: String,
    ancestors: Seq<String>,
    env_names: Seq<(String, String)>,
    mask_secrets: bool,
    d: ParameterDetails,
)
    requires
        detail_of(p, env_url, ancestors, env_names, mask_secrets, d),
    ensures
        d._override <==> (effective_value(p, env_url, ancestors).is_some() && effective_value(
            p,
            env_url,
            ancestors,
        ).unwrap().environment@ == env_url@),
        d._override ==> d.env_url@ == env_url@,
{
}

} // verus!

verus! {

/// `true` or `false`.
pub open spec fn bool_text(b: bool) -> Seq<char> {
    if b {
        "true"@
    } else {
        "false"@
    }
}

/// How a value is sourced: `external` (from a reference), `evaluated` (a template) or
/// `internal` (a static value).
pub open spec fn scope_text(d: ParameterDetails) -> Seq<char> {
    if d.external {
        "external"@
    } else if d.evaluated {
        "evaluated"@
    } else {
        "internal"@
    }
}

/// The text of the property `prop` of a detail record; empty for an unknown property.
pub open spec fn property_text(d: ParameterDetails, prop: Seq<char>) -> Seq<char> {
    if prop == "name"@ {
        d.key@
    } else if prop == "value"@ {
        d.value@
    } else if prop == "raw"@ {
        d.raw_value@
    } else if prop == "type"@ {
        d.param_type@
    } else if prop == "rule-count"@ {
        decimal(d.rules@.len())
    } else if prop == "environment"@ {
        d.env_name@
    } else if prop == "fqn"@ {
        d.fqn@
    } else if prop == "jmes-path"@ {
        d.jmes_path@
    } else if prop == "secret"@ {
        bool_text(d.secret)
    } else if prop == "scope"@ {
        scope_text(d)
    } else if prop == "description"@ {
        d.description@
    } else if prop == "project-name"@ {
        d.project_name@
    } else if prop == "created-at"@ {
        d.created_at@
    } else if prop == "modified-at"@ {
        d.modified_at@
    } else {
        Seq::empty()
    }
}

/// The texts of the properties `props` of a detail record, in order.
pub open spec fn properties_text(d: ParameterDetails, props: Seq<String>) -> Seq<Seq<char>> {
    props.map_values(|p: String| property_text(d, p@))
}

/// `true` or `false`.
pub fn bool_string(b: bool) -> (r: String)
    ensures
        r@ == bool_text(b),
{
    if b {
        String::from_str("true")
    } else {
        String::from_str("false")
    }
}

/// The position of the first rule of type `t`.
pub open spec fn rule_position(rules: Seq<ParameterRule>, t: ParameterRuleTypeEnum, n: nat) -> Option<
    nat,
>
    decreases n,
{
    if n == 0 {
        None
    } else {
        match rule_position(rules, t, (n - 1) as nat) {
            Some(i) => Some(i),
            None => if rules[n - 1]._type == t {
                Some((n - 1) as nat)
            } else {
                None
            },
        }
    }
}

impl ParameterDetails {
    /// The text of one property; see `property_text`.
    pub fn get_property(&self, prop: &str) -> (r: String)
        ensures
            r@ == property_text(*self, prop@),
    {
        if text_eq(prop, "name") {
            self.key.clone()
        } else if text_eq(prop, "value") {
            self.value.clone()
        } else if text_eq(prop, "raw") {
            self.raw_value.clone()
        } else if text_eq(prop, "type") {
            self.param_type.clone()
        } else if text_eq(prop, "rule-count") {
            let mut s = String::new();
            push_decimal(&mut s, self.rules.len() as u64);
            s
        } else if text_eq(prop, "environment") {
            self.env_name.clone()
        } else if text_eq(prop, "fqn") {
            self.fqn.clone()
        } else if text_eq(prop, "jmes-path") {
            self.jmes_path.clone()
        } else if text_eq(prop, "secret") {
            bool_string(self.secret)
        } else if text_eq(prop, "scope") {
            if self.external {
                String::from_str("external")
            } else if self.evaluated {
                String::from_str("evaluated")
            } else {
                String::from_str("internal")
            }
        } else if text_eq(prop, "description") {
            self.description.clone()
        } else if text_eq(prop, "project-name") {
            self.project_name.clone()
        } else if text_eq(prop, "created-at") {
            self.created_at.clone()
        } else if text_eq(prop, "modified-at") {
            self.modified_at.clone()
        } else {
            String::new()
        }
    }

    /// The texts of the properties `props`, in order.
    pub fn get_properties(&self, props: &Vec<String>) -> (r: Vec<String>)
        ensures
            text_views(r@) == properties_text(*self, props@),
    {
        let mut out: Vec<String> = Vec::new();
        let mut k: usize = 0;
        while k < props.len()
            invariant
                k <= props@.len(),
                text_views(out@) == properties_text(*self, props@.take(k as int)),
            decreases props@.len() - k,
        {
            let ghost prev = out@;
            let t = self.get_property(props[k].as_str());
            out.push(t);
            proof {
                assert(text_views(out@) =~= text_views(prev).push(t@));
                assert(properties_text(*self, props@.take(k + 1)) =~= properties_text(
                    *self,
                    props@.take(k as int),
                ).push(property_text(*self, props@[k as int]@)));
            }
            k = k + 1;
        }
        assert(props@.take(k as int) =~= props@);
        out
    }

    /// The id of the first rule of type `rule_type`, if any.
    pub fn get_rule_id(&self, rule_type: ParameterRuleTypeEnum) -> (r: Option<String>)
        ensures
            match rule_position(self.rules@, rule_type, self.rules@.len()) {
                Some(i) => r.is_some() && r.unwrap() == self.rules@[i as int].id,
                None => r.is_none(),
            },
    {
        let mut i: usize = 0;
        while i < self.rules.len()
            invariant
                i <= self.rules@.len(),
                rule_position(self.rules@, rule_type, i as nat).is_none(),
            decreases self.rules@.len() - i,
        {
            if self.rules[i]._type == rule_type {
                proof {
                    lemma_rule_position_stable(self.rules@, rule_type, (i + 1) as nat, self.rules@.len());
                }
                return Some(self.rules[i].id.clone());
            }
            i = i + 1;
        }
        None
    }
}

proof fn lemma_rule_position_stable(rules: Seq<ParameterRule>, t: ParameterRuleTypeEnum, m: nat, n: nat)
    requires
        m <= n,
        rule_position(rules, t, m).is_some(),
    ensures
        rule_position(rules, t, n) == rule_position(rules, t, m),
    decreases n - m,
{
    if m < n {
        lemma_rule_position_stable(rules, t, m, (n - 1) as nat);
    }
}

} // verus!

verus! {

/// The detail records of parameters queried in one environment, in order.
pub fn details_for(
    params: Vec<Parameter>,
    env_url: &String,
    ancestors: &Vec<String>,
    env_names: &NameMap,
    mask_secrets: bool,
) -> (r: Vec<ParameterDetails>)
    ensures
        r@.len() == params@.len(),
        forall|i: int|
            0 <= i < params@.len() ==> detail_of(
                #[trigger] params@[i],
                *env_url,
                ancestors@,
                env_names.entries@,
                mask_secrets,
                r@[i],
            ),
{
    let ghost whole = params@;
    let mut rest = params;
    let mut out: Vec<ParameterDetails> = Vec::new();
    while rest.len() > 0
        invariant
            out@.len() + rest@.len() == whole.len(),
            rest@ == whole.skip(out@.len() as int),
            forall|i: int|
                0 <= i < out@.len() ==> detail_of(
                    #[trigger] whole[i],
                    *env_url,
                    ancestors@,
                    env_names.entries@,
                    mask_secrets,
                    out@[i],
                ),
        decreases rest@.len(),
    {
        let ghost before = rest@;
        let p = rest.remove(0);
        assert(p == whole[out@.len() as int]);
        assert(rest@ =~= whole.skip(out@.len() as int + 1));
        out.push(ParameterDetails::from_parameter(p, env_url, ancestors, env_names, mask_secrets));
    }
    out
}

} // verus!
