use cloudtruth::environments::{
    children_of, env_tree_lines, get_env_order, get_env_order_for, EnvironmentDetails,
};

fn env(name: &str, parent: &str) -> EnvironmentDetails {
    EnvironmentDetails {
        id: format!("id-{}", name),
        url: format!("https://api/env/{}/", name),
        name: name.to_string(),
        parent_name: parent.to_string(),
        parent_url: if parent.is_empty() {
            String::new()
        } else {
            format!("https://api/env/{}/", parent)
        },
        description: String::new(),
        created_at: String::new(),
        modified_at: String::new(),
    }
}

#[test]
fn tree_of_fresh_environment() {
    let envs = vec![env("default", ""), env("staging", "default")];
    let lines = env_tree_lines("default", &envs).unwrap();
    assert_eq!(lines.join("\n"), "default\n  staging");
}

#[test]
fn tree_orders_children_by_name_depth_first() {
    let envs = vec![
        env("default", ""),
        env("prod", "default"),
        env("dev", "default"),
        env("dev-b", "dev"),
        env("dev-a", "dev"),
    ];
    let lines = env_tree_lines("default", &envs).unwrap();
    assert_eq!(lines, vec!["default", "  dev", "    dev-a", "    dev-b", "  prod"]);
    let sub = env_tree_lines("dev", &envs).unwrap();
    assert_eq!(sub, vec!["dev", "  dev-a", "  dev-b"]);
}

#[test]
fn tree_of_unknown_environment() {
    let envs = vec![env("default", "")];
    assert_eq!(env_tree_lines("nope", &envs), None);
}

#[test]
fn children_sorted_by_name() {
    let envs = vec![env("default", ""), env("zeta", "default"), env("alpha", "default")];
    assert_eq!(children_of("default", &envs), vec!["alpha", "zeta"]);
    assert!(children_of("alpha", &envs).is_empty());
}

#[test]
fn environment_order_starts_at_default() {
    let envs = vec![
        env("prod", "default"),
        env("default", ""),
        env("dev", "default"),
        env("feature", "dev"),
    ];
    assert_eq!(
        get_env_order(&envs),
        vec![
            "https://api/env/default/",
            "https://api/env/dev/",
            "https://api/env/feature/",
            "https://api/env/prod/",
        ]
    );
    assert_eq!(get_env_order_for("dev", &envs), vec!["https://api/env/feature/"]);
}

#[test]
fn cyclic_parent_links_end() {
    let envs = vec![env("default", ""), env("a", "b"), env("b", "a")];
    assert_eq!(get_env_order(&envs), vec!["https://api/env/default/"]);
    let lines = env_tree_lines("a", &envs).unwrap();
    assert_eq!(lines[0], "a");
    assert!(lines.len() <= envs.len());
}

use cloudtruth::models::Tag;
use cloudtruth::resolver::{
    ancestor_urls, environment_ids, environment_url_names, is_valid_tag_name, tag_time, NameMap,
    TagError,
};

#[test]
fn ancestors_parent_first() {
    let envs = vec![env("default", ""), env("dev", "default"), env("feature", "dev")];
    assert_eq!(
        ancestor_urls("feature", &envs),
        vec!["https://api/env/dev/", "https://api/env/default/"]
    );
    assert!(ancestor_urls("default", &envs).is_empty());
    assert!(ancestor_urls("missing", &envs).is_empty());
}

#[test]
fn name_maps() {
    let envs = vec![env("default", ""), env("dev", "default")];
    let ids = environment_ids(&envs);
    assert_eq!(ids.get_id("dev"), Some("id-dev".to_string()));
    assert_eq!(ids.get_id("qa"), None);
    let names = environment_url_names(&envs);
    assert_eq!(names.get_id("https://api/env/default/"), Some("default".to_string()));
    let mut m = NameMap::new();
    m.insert("a".to_string(), "1".to_string());
    m.insert("a".to_string(), "2".to_string());
    assert_eq!(m.get_id("a"), Some("1".to_string()));
}

#[test]
fn tag_lookup() {
    let tags = vec![
        Tag::new("u".into(), "t1".into(), "production-2024-01".into(), "2024-01-31T00:00:00Z".into(), None),
        Tag::new("u".into(), "t2".into(), "Production-2024-01".into(), "2024-02-01T00:00:00Z".into(), None),
    ];
    assert_eq!(tag_time("production-2024-01", 1, &tags), Ok("2024-01-31T00:00:00Z".to_string()));
    assert_eq!(tag_time("Production-2024-01", 1, &tags), Ok("2024-02-01T00:00:00Z".to_string()));
    assert_eq!(tag_time("nope", 1, &tags), Err(TagError::NotFound("nope".to_string())));
    assert_eq!(tag_time("production-2024-01", 2, &tags), Err(TagError::InvalidUsage));
    let remaining: Vec<Tag> = tags.into_iter().filter(|t| t.name != "production-2024-01").collect();
    assert_eq!(
        tag_time("production-2024-01", 1, &remaining),
        Err(TagError::NotFound("production-2024-01".to_string()))
    );
}

#[test]
fn tag_name_characters() {
    assert!(is_valid_tag_name("production-2024-01"));
    assert!(is_valid_tag_name("v1.2_rc"));
    assert!(!is_valid_tag_name("has space"));
    assert!(!is_valid_tag_name(""));
}

use cloudtruth::environments::{env_set_action, EnvSetAction};

#[test]
fn environment_set_decisions() {
    let envs = vec![env("default", ""), env("dev", "default")];
    assert_eq!(
        env_set_action("staging", Some("default"), false, None, &envs),
        EnvSetAction::Create("https://api/env/default/".to_string())
    );
    assert_eq!(
        env_set_action("staging", None, false, None, &envs),
        EnvSetAction::Create("https://api/env/default/".to_string())
    );
    let missing = env_set_action("staging", Some("qa"), false, None, &envs);
    assert_eq!(missing, EnvSetAction::ParentMissing("qa".to_string()));
    assert_eq!(missing.exit_code(), Some(5));
    let refused = env_set_action("dev", Some("other"), true, None, &envs);
    assert_eq!(refused, EnvSetAction::ParentChangeRefused);
    assert_eq!(refused.exit_code(), Some(6));
    assert_eq!(env_set_action("dev", Some("default"), false, None, &envs), EnvSetAction::NothingToUpdate);
    assert_eq!(
        env_set_action("dev", None, false, Some("develop"), &envs),
        EnvSetAction::Update("id-dev".to_string(), "develop".to_string())
    );
}
