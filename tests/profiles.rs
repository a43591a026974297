use cloudtruth::profiles::{pick_setting, resolve_profile, Profile, ProfileError};

fn profile(name: &str, key: Option<&str>, project: Option<&str>, source: Option<&str>) -> Profile {
    Profile {
        name: name.to_string(),
        api_key: key.map(String::from),
        server_url: None,
        project: project.map(String::from),
        environment: None,
        source: source.map(String::from),
    }
}

#[test]
fn profile_takes_defaults_from_source() {
    let ps = vec![
        profile("default", Some("k-default"), Some("base"), None),
        profile("dev", None, Some("web"), Some("default")),
    ];
    let s = resolve_profile("dev", &ps).unwrap();
    assert_eq!(s.api_key, Some("k-default".to_string()));
    assert_eq!(s.project, Some("web".to_string()));
    assert_eq!(s.environment, None);
}

#[test]
fn missing_profile_and_source() {
    let ps = vec![profile("dev", None, None, Some("gone"))];
    assert_eq!(resolve_profile("nope", &ps), Err(ProfileError::NotFound("nope".to_string())));
    assert_eq!(resolve_profile("dev", &ps), Err(ProfileError::NotFound("gone".to_string())));
    assert_eq!(resolve_profile("x", &vec![]), Err(ProfileError::NotFound("x".to_string())));
}

#[test]
fn circular_sources_are_refused() {
    let ps = vec![profile("a", None, None, Some("b")), profile("b", None, None, Some("a"))];
    assert_eq!(resolve_profile("a", &ps), Err(ProfileError::Circular("a".to_string())));
    let selfish = vec![profile("s", None, None, Some("s"))];
    assert_eq!(resolve_profile("s", &selfish), Err(ProfileError::Circular("s".to_string())));
}

#[test]
fn flags_then_environment_then_profile() {
    let f = || Some("flag".to_string());
    let e = || Some("env".to_string());
    let p = || Some("profile".to_string());
    assert_eq!(pick_setting(f(), e(), p()), f());
    assert_eq!(pick_setting(None, e(), p()), e());
    assert_eq!(pick_setting(None, None, p()), p());
    assert_eq!(pick_setting(None, None, None), None);
}
