//! Plain records exchanged with the service.
use vstd::prelude::*;

verus! {

/// The role a user holds in an organization.
#[derive(Clone, Copy, Debug, PartialEq, Eq, Structural)]
pub enum RoleEnum {
    Owner,
    Admin,
    Contrib,
    Viewer,
}

/// The operation a push task step performed.
#[derive(Clone, Copy, Debug, PartialEq, Eq, Structural)]
pub enum OperationEnum {
    Create,
    Read,
    Update,
    Delete,
}

/// The kind of node in an integration's tree.
#[derive(Clone, Copy, Debug, PartialEq, Eq, Structural, PartialOrd, Ord, Hash)]
pub enum NodeTypeEnum {
    Directory,
    File,
}

impl NodeTypeEnum {
    /// The name the service uses for this node kind.
    pub open spec fn text(&self) -> Seq<char> {
        match self {
            NodeTypeEnum::Directory => "directory"@,
            NodeTypeEnum::File => "file"@,
        }
    }

    pub fn to_string(&self) -> (r: String)
        ensures
            r@ == self.text(),
    {
        match self {
            NodeTypeEnum::Directory => String::from_str("directory"),
            NodeTypeEnum::File => String::from_str("file"),
        }
    }
}

/// The type of a parameter rule.
#[derive(Clone, Copy, Debug, PartialEq, Eq, Structural)]
pub enum ParameterRuleTypeEnum {
    Max,
    Min,
    MaxLen,
    MinLen,
    Regex,
}

impl ParameterRuleTypeEnum {
    /// The name the service uses for this rule type.
    pub open spec fn text(&self) -> Seq<char> {
        match self {
            ParameterRuleTypeEnum::Max => "max"@,
            ParameterRuleTypeEnum::Min => "min"@,
            ParameterRuleTypeEnum::MaxLen => "max_len"@,
            ParameterRuleTypeEnum::MinLen => "min_len"@,
            ParameterRuleTypeEnum::Regex => "regex"@,
        }
    }

    pub fn to_string(&self) -> (r: String)
        ensures
            r@ == self.text(),
    {
        match self {
            ParameterRuleTypeEnum::Max => String::from_str("max"),
            ParameterRuleTypeEnum::Min => String::from_str("min"),
            ParameterRuleTypeEnum::MaxLen => String::from_str("max_len"),
            ParameterRuleTypeEnum::MinLen => String::from_str("min_len"),
            ParameterRuleTypeEnum::Regex => String::from_str("regex"),
        }
    }
}

/// A rule constraining the values of a parameter.
#[derive(Clone, Debug, PartialEq)]
pub struct ParameterRule {
    pub url: String,
    pub id: String,
    pub parameter: String,
    pub _type: ParameterRuleTypeEnum,
    pub constraint: String,
    pub created_at: String,
    pub modified_at: String,
}

/// A value record of a parameter in one environment.
#[derive(Clone, Debug, PartialEq)]
pub struct Value {
    pub url: String,
    pub id: String,
    /// The url of the environment that holds this value.
    pub environment: String,
    pub environment_name: String,
    pub parameter: String,
    pub external: bool,
    pub external_fqn: Option<String>,
    pub external_filter: Option<String>,
    pub external_error: Option<String>,
    pub internal_value: Option<String>,
    pub value: Option<String>,
    pub evaluated: bool,
    pub created_at: String,
    pub modified_at: String,
}

/// Read statistics of a tag.
#[derive(Clone, Debug, PartialEq)]
pub struct TagReadUsage {
    pub last_read: Option<String>,
    pub last_read_by: String,
    pub total_reads: i32,
}

/// Push task step for an AWS integration.
#[derive(Clone, Debug, PartialEq)]
pub struct AwsPushTaskStep {
    pub url: String,
    pub id: String,
    pub operation: Option<Box<OperationEnum>>,
    pub success: bool,
    pub fqn: Option<String>,
    pub environment: Option<String>,
    pub parameter: Option<String>,
    pub venue_id: Option<String>,
    pub venue_name: Option<String>,
    pub error_code: Option<String>,
    pub error_detail: Option<String>,
    pub created_at: String,
    pub modified_at: String,
}

impl AwsPushTaskStep {
    pub fn new(
        url: String,
        id: String,
        success: bool,
        environment: Option<String>,
        parameter: Option<String>,
        created_at: String,
        modified_at: String,
    ) -> (r: AwsPushTaskStep)
        ensures
            r.url == url,
            r.id == id,
            r.operation.is_none(),
            r.success == success,
            r.fqn.is_none(),
            r.environment == environment,
            r.parameter == parameter,
            r.venue_id.is_none(),
            r.venue_name.is_none(),
            r.error_code.is_none(),
            r.error_detail.is_none(),
            r.created_at == created_at,
            r.modified_at == modified_at,
    {
        AwsPushTaskStep {
            url,
            id,
            operation: None,
            success,
            fqn: None,
            environment,
            parameter,
            venue_id: None,
            venue_name: None,
            error_code: None,
            error_detail: None,
            created_at,
            modified_at,
        }
    }
}

/// Details for creating an environment.
#[derive(Clone, Debug, PartialEq)]
pub struct EnvironmentCreate {
    pub name: String,
    pub description: Option<String>,
    /// The url of the parent environment.
    pub parent: Option<String>,
}

impl EnvironmentCreate {
    pub fn new(name: String) -> (r: EnvironmentCreate)
        ensures
            r.name == name,
            r.description.is_none(),
            r.parent.is_none(),
    {
        EnvironmentCreate { name, description: None, parent: None }
    }
}

/// Details for inviting a user.
#[derive(Clone, Debug, PartialEq)]
pub struct InvitationCreate {
    pub email: String,
    pub role: Box<RoleEnum>,
}

impl InvitationCreate {
    pub fn new(email: String, role: RoleEnum) -> (r: InvitationCreate)
        ensures
            r.email == email,
            *r.role == role,
    {
        InvitationCreate { email, role: Box::new(role) }
    }
}

/// An organization the credentials give access to.
#[derive(Clone, Debug, PartialEq)]
pub struct Organization {
    pub url: String,
    pub id: String,
    pub name: String,
    pub current: bool,
    pub subscription_expires_at: Option<String>,
    pub subscription_id: String,
    pub subscription_plan_id: String,
    pub subscription_plan_name: String,
    pub created_at: String,
    pub modified_at: String,
}

impl Organization {
    pub fn new(
        url: String,
        id: String,
        name: String,
        current: bool,
        subscription_expires_at: Option<String>,
        subscription_id: String,
        subscription_plan_id: String,
        subscription_plan_name: String,
        created_at: String,
        modified_at: String,
    ) -> (r: Organization)
        ensures
            r.url == url,
            r.id == id,
            r.name == name,
            r.current == current,
            r.subscription_expires_at == subscription_expires_at,
            r.subscription_id == subscription_id,
            r.subscription_plan_id == subscription_plan_id,
            r.subscription_plan_name == subscription_plan_name,
            r.created_at == created_at,
            r.modified_at == modified_at,
    {
        Organization {
            url,
            id,
            name,
            current,
            subscription_expires_at,
            subscription_id,
            subscription_plan_id,
            subscription_plan_name,
            created_at,
            modified_at,
        }
    }
}

/// A single parameter inside of a project, with its effective value in each environment.
///
/// `values` is keyed by environment url; each key occurs at most once.
#[derive(Clone, Debug, PartialEq)]
pub struct Parameter {
    pub url: String,
    pub id: String,
    pub name: String,
    pub description: Option<String>,
    pub secret: Option<bool>,
    pub _type: Option<String>,
    pub rules: Vec<ParameterRule>,
    /// The url of the project that defines the parameter.
    pub project: String,
    pub project_name: String,
    pub referencing_templates: Vec<String>,
    pub referencing_values: Vec<String>,
    pub values: Vec<(String, Option<Value>)>,
    pub overrides: Option<String>,
    pub created_at: String,
    pub modified_at: String,
}

impl Parameter {
    pub fn new(
        url: String,
        id: String,
        name: String,
        rules: Vec<ParameterRule>,
        project: String,
        project_name: String,
        referencing_templates: Vec<String>,
        referencing_values: Vec<String>,
        values: Vec<(String, Option<Value>)>,
        overrides: Option<String>,
        created_at: String,
        modified_at: String,
    ) -> (r: Parameter)
        ensures
            r.url == url,
            r.id == id,
            r.name == name,
            r.description.is_none(),
            r.secret.is_none(),
            r._type.is_none(),
            r.rules == rules,
            r.project == project,
            r.project_name == project_name,
            r.referencing_templates == referencing_templates,
            r.referencing_values == referencing_values,
            r.values == values,
            r.overrides == overrides,
            r.created_at == created_at,
            r.modified_at == modified_at,
    {
        Parameter {
            url,
            id,
            name,
            description: None,
            secret: None,
            _type: None,
            rules,
            project,
            project_name,
            referencing_templates,
            referencing_values,
            values,
            overrides,
            created_at,
            modified_at,
        }
    }
}

/// The environment of a parameter timeline entry.
#[derive(Clone, Debug, PartialEq)]
pub struct ParameterTimelineEntryEnvironment {
    pub id: String,
    pub name: String,
    /// Whether the value was set directly in this environment.
    pub _override: bool,
}

impl ParameterTimelineEntryEnvironment {
    pub fn new(id: String, name: String, _override: bool) -> (r: ParameterTimelineEntryEnvironment)
        ensures
            r.id == id,
            r.name == name,
            r._override == _override,
    {
        ParameterTimelineEntryEnvironment { id, name, _override }
    }
}

/// A partial update of a parameter rule.
#[derive(Clone, Debug, PartialEq)]
pub struct PatchedParameterRule {
    pub url: Option<String>,
    pub id: Option<String>,
    pub parameter: Option<String>,
    pub _type: Option<ParameterRuleTypeEnum>,
    pub constraint: Option<String>,
    pub created_at: Option<String>,
    pub modified_at: Option<String>,
}

impl PatchedParameterRule {
    pub fn new() -> (r: PatchedParameterRule)
        ensures
            r.url.is_none(),
            r.id.is_none(),
            r.parameter.is_none(),
            r._type.is_none(),
            r.constraint.is_none(),
            r.created_at.is_none(),
            r.modified_at.is_none(),
    {
        PatchedParameterRule {
            url: None,
            id: None,
            parameter: None,
            _type: None,
            constraint: None,
            created_at: None,
            modified_at: None,
        }
    }
}

/// A partial update of a template.
#[derive(Clone, Debug, PartialEq)]
pub struct PatchedTemplate {
    pub url: Option<String>,
    pub id: Option<String>,
    pub name: Option<String>,
    pub description: Option<String>,
    pub body: Option<String>,
    pub parameters: Option<Vec<String>>,
    pub has_secret: Option<bool>,
    pub created_at: Option<String>,
    pub modified_at: Option<String>,
}

impl PatchedTemplate {
    pub fn new() -> (r: PatchedTemplate)
        ensures
            r.url.is_none(),
            r.id.is_none(),
            r.name.is_none(),
            r.description.is_none(),
            r.body.is_none(),
            r.parameters.is_none(),
            r.has_secret.is_none(),
            r.created_at.is_none(),
            r.modified_at.is_none(),
    {
        PatchedTemplate {
            url: None,
            id: None,
            name: None,
            description: None,
            body: None,
            parameters: None,
            has_secret: None,
            created_at: None,
            modified_at: None,
        }
    }
}

/// A named point in time of one environment.
#[derive(Clone, Debug, PartialEq)]
pub struct Tag {
    pub url: String,
    pub id: String,
    pub name: String,
    pub description: Option<String>,
    pub timestamp: String,
    pub usage: Option<Box<TagReadUsage>>,
}

impl Tag {
    pub fn new(url: String, id: String, name: String, timestamp: String, usage: Option<
        TagReadUsage,
    >) -> (r: Tag)
        ensures
            r.url == url,
            r.id == id,
            r.name == name,
            r.description.is_none(),
            r.timestamp == timestamp,
            r.usage.is_some() == usage.is_some(),
            usage.is_some() ==> *r.usage.unwrap() == usage.unwrap(),
    {
        let boxed = match usage {
            Some(u) => Some(Box::new(u)),
            None => None,
        };
        Tag { url, id, name, description: None, timestamp, usage: boxed }
    }
}

/// Details for creating a tag.
#[derive(Clone, Debug, PartialEq)]
pub struct TagCreate {
    pub name: String,
    pub description: Option<String>,
    pub timestamp: Option<String>,
}

impl TagCreate {
    pub fn new(name: String) -> (r: TagCreate)
        ensures
            r.name == name,
            r.description.is_none(),
            r.timestamp.is_none(),
    {
        TagCreate { name, description: None, timestamp: None }
    }
}

/// A parameter template in a project, optionally evaluated against an environment.
#[derive(Clone, Debug, PartialEq)]
pub struct Template {
    pub url: String,
    pub id: String,
    pub name: String,
    pub description: Option<String>,
    pub evaluated: bool,
    pub body: Option<String>,
    pub referenced_projects: Vec<String>,
    pub referenced_parameters: Vec<String>,
    pub referenced_templates: Vec<String>,
    pub referencing_templates: Vec<String>,
    pub referencing_values: Vec<String>,
    pub has_secret: bool,
    pub created_at: String,
    pub modified_at: String,
}

impl Template {
    pub fn new(
        url: String,
        id: String,
        name: String,
        evaluated: bool,
        referenced_projects: Vec<String>,
        referenced_parameters: Vec<String>,
        referenced_templates: Vec<String>,
        referencing_templates: Vec<String>,
        referencing_values: Vec<String>,
        has_secret: bool,
        created_at: String,
        modified_at: String,
    ) -> (r: Template)
        ensures
            r.url == url,
            r.id == id,
            r.name == name,
            r.description.is_none(),
            r.evaluated == evaluated,
            r.body.is_none(),
            r.referenced_projects == referenced_projects,
            r.referenced_parameters == referenced_parameters,
            r.referenced_templates == referenced_templates,
            r.referencing_templates == referencing_templates,
            r.referencing_values == referencing_values,
            r.has_secret == has_secret,
            r.created_at == created_at,
            r.modified_at == modified_at,
    {
        Template {
            url,
            id,
            name,
            description: None,
            evaluated,
            body: None,
            referenced_projects,
            referenced_parameters,
            referenced_templates,
            referencing_templates,
            referencing_values,
            has_secret,
            created_at,
            modified_at,
        }
    }
}

/// Details for creating a template.
#[derive(Clone, Debug, PartialEq)]
pub struct TemplateCreate {
    pub name: String,
    pub description: Option<String>,
    pub body: Option<String>,
}

impl TemplateCreate {
    pub fn new(name: String) -> (r: TemplateCreate)
        ensures
            r.name == name,
            r.description.is_none(),
            r.body.is_none(),
    {
        TemplateCreate { name, description: None, body: None }
    }
}

/// The environment of a timeline entry.
#[derive(Clone, Debug, PartialEq)]
pub struct TimelineEntryEnvironment {
    pub id: String,
    pub name: String,
    /// Whether the value was set directly in this environment.
    pub _override: bool,
}

impl TimelineEntryEnvironment {
    pub fn new(id: String, name: String, _override: bool) -> (r: TimelineEntryEnvironment)
        ensures
            r.id == id,
            r.name == name,
            r._override == _override,
    {
        TimelineEntryEnvironment { id, name, _override }
    }
}

/// A user of the organization.
#[derive(Clone, Debug, PartialEq)]
pub struct User {
    pub url: String,
    pub id: String,
    pub _type: Option<String>,
    pub name: Option<String>,
    pub organization_name: Option<String>,
    pub membership_id: Option<String>,
    pub role: Option<String>,
    pub email: Option<String>,
    pub picture_url: Option<String>,
    pub created_at: String,
    pub modified_at: String,
}

impl User {
    pub fn new(
        url: String,
        id: String,
        name: Option<String>,
        organization_name: Option<String>,
        membership_id: Option<String>,
        role: Option<String>,
        email: Option<String>,
        picture_url: Option<String>,
        created_at: String,
        modified_at: String,
    ) -> (r: User)
        ensures
            r.url == url,
            r.id == id,
            r._type.is_none(),
            r.name == name,
            r.organization_name == organization_name,
            r.membership_id == membership_id,
            r.role == role,
            r.email == email,
            r.picture_url == picture_url,
            r.created_at == created_at,
            r.modified_at == modified_at,
    {
        User {
            url,
            id,
            _type: None,
            name,
            organization_name,
            membership_id,
            role,
            email,
            picture_url,
            created_at,
            modified_at,
        }
    }
}

} // verus!
