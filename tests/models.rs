use cloudtruth::models::{
    AwsPushTaskStep, EnvironmentCreate, InvitationCreate, Organization,
    ParameterTimelineEntryEnvironment, PatchedParameterRule, PatchedTemplate, RoleEnum, Tag,
    TagCreate, TagReadUsage, Template, TemplateCreate, TimelineEntryEnvironment, User,
};

#[test]
fn constructors_leave_optional_fields_empty() {
    let s = AwsPushTaskStep::new("u".into(), "i".into(), true, None, Some("p".into()), "c".into(), "m".into());
    assert!(s.success && s.operation.is_none() && s.venue_name.is_none());
    assert_eq!(s.parameter, Some("p".to_string()));
    let e = EnvironmentCreate::new("staging".into());
    assert_eq!(e.name, "staging");
    assert!(e.parent.is_none());
    let i = InvitationCreate::new("a@b.c".into(), RoleEnum::Viewer);
    assert_eq!(*i.role, RoleEnum::Viewer);
    let o = Organization::new("u".into(), "i".into(), "n".into(), true, None, "s".into(), "p".into(), "pn".into(), "c".into(), "m".into());
    assert!(o.current);
    let t = ParameterTimelineEntryEnvironment::new("i".into(), "n".into(), true);
    assert!(t._override);
    let r = PatchedParameterRule::new();
    assert!(r.constraint.is_none());
    let pt = PatchedTemplate::new();
    assert!(pt.body.is_none());
    let usage = TagReadUsage { last_read: None, last_read_by: "me".into(), total_reads: 3 };
    let tag = Tag::new("u".into(), "i".into(), "production-2024-01".into(), "2024-01-01T00:00:00Z".into(), Some(usage.clone()));
    assert_eq!(*tag.usage.unwrap(), usage);
    let tc = TagCreate::new("t".into());
    assert!(tc.timestamp.is_none());
    let tpl = Template::new("u".into(), "i".into(), "n".into(), false, vec![], vec![], vec![], vec![], vec![], true, "c".into(), "m".into());
    assert!(tpl.has_secret && tpl.body.is_none());
    let tcr = TemplateCreate::new("n".into());
    assert!(tcr.body.is_none());
    let te = TimelineEntryEnvironment::new("i".into(), "n".into(), false);
    assert!(!te._override);
    let u = User::new("u".into(), "i".into(), Some("n".into()), None, None, None, None, None, "c".into(), "m".into());
    assert!(u._type.is_none());
}
