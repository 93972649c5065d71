use mcp_gateway::registry::{
    best_package_config, is_placeholder, normalize_repo_url, package_to_config, InstallConfig,
    MarketplaceServer, Package,
};

fn config(command: &str, env: Vec<(&str, &str)>) -> InstallConfig {
    InstallConfig {
        command: command.into(),
        args: vec!["pkg".into()],
        env: env.into_iter().map(|(k, v)| (k.to_string(), v.to_string())).collect(),
    }
}

#[test]
fn placeholders() {
    for v in ["", "  ", "YOUR_KEY", "your_token", "<api key>", "API_KEY_HERE", "SK123", "3000"] {
        assert!(is_placeholder(v), "{v}");
    }
    for v in ["TRUE", "DEBUG", "abc", "sk-123", "ABC", "300"] {
        assert!(!is_placeholder(v), "{v}");
    }
}

#[test]
fn runtimes_and_env_split() {
    assert_eq!(config("npx", vec![]).runtime(), Some("npm"));
    assert_eq!(config("uv", vec![]).runtime(), Some("pypi"));
    assert_eq!(config("docker", vec![]).runtime(), Some("oci"));
    assert_eq!(config("python", vec![]).runtime(), None);
    let c = config("npx", vec![("KEY", "YOUR_KEY"), ("LEVEL", "INFO"), ("PORT", "")]);
    let ph = c.placeholder_env_vars();
    let names: Vec<&str> = ph.iter().map(|v| v.name.as_str()).collect();
    assert_eq!(names, vec!["KEY", "PORT"]);
    assert!(ph.iter().all(|v| v.is_required && v.is_secret));
    assert_eq!(c.default_env(), vec![("LEVEL".to_string(), "INFO".to_string())]);
}

#[test]
fn summaries_and_details() {
    let s = MarketplaceServer {
        id: "x".into(),
        name: "X".into(),
        description: None,
        repository_url: None,
        stars: Some(3),
        version: None,
        install: Some(config("uvx", vec![("TOKEN", "<token>")])),
        provider: "mcpanvil".into(),
    };
    let sum = s.to_summary(&["x".to_string()]);
    assert!(sum.installed);
    assert!(sum.requires_config);
    assert_eq!(sum.registry_type.as_deref(), Some("pypi"));
    assert_eq!(sum.transport_types, vec!["stdio".to_string()]);
    let d = s.to_detail();
    assert_eq!(d.command.as_deref(), Some("uvx"));
    assert_eq!(d.env_vars.len(), 1);
    let bare = MarketplaceServer { install: None, ..s };
    let sum2 = bare.to_summary(&[]);
    assert!(!sum2.installed && !sum2.requires_config && sum2.transport_types.is_empty());
}

#[test]
fn repository_urls_are_normalized() {
    assert_eq!(normalize_repo_url("  https://GitHub.com/Org/Repo.git/ "), "https://github.com/org/repo");
    assert_eq!(normalize_repo_url("https://github.com/org/mono/tree/main/pkg"), "https://github.com/org/mono");
}

#[test]
fn packages_prefer_npm() {
    let pypi = Package { registry_type: Some("pypi".into()), identifier: Some("p".into()), environment_variables: vec![] };
    let npm = Package {
        registry_type: Some("npm".into()),
        identifier: Some("@x/y".into()),
        environment_variables: vec![("KEY".into(), Some(true)), ("OPT".into(), Some(false))],
    };
    let best = best_package_config(&[pypi.clone(), npm.clone()]).unwrap();
    assert_eq!(best.command, "npx");
    assert_eq!(best.args, vec!["-y".to_string(), "@x/y".to_string()]);
    assert_eq!(best.env, vec![("KEY".to_string(), String::new())]);
    let oci = Package { registry_type: Some("oci".into()), identifier: Some("img".into()), environment_variables: vec![] };
    assert_eq!(package_to_config(&oci).unwrap().args, vec!["run", "-i", "--rm", "img"]);
    let other = Package { registry_type: Some("cargo".into()), identifier: Some("c".into()), environment_variables: vec![] };
    assert!(best_package_config(&[other]).is_none());
}

#[test]
fn required_variables_are_listed_once() {
    let p = Package {
        registry_type: Some("pypi".into()),
        identifier: Some("p".into()),
        environment_variables: vec![("KEY".into(), Some(true)), ("KEY".into(), Some(true)), ("B".into(), None)],
    };
    let c = package_to_config(&p).unwrap();
    assert_eq!(c.env, vec![("KEY".to_string(), String::new())]);
    let mixed = config("npx", vec![("A", "YOUR_A"), ("B", "on")]);
    let asked: Vec<String> = mixed.placeholder_env_vars().into_iter().map(|v| v.name).collect();
    let kept: Vec<String> = mixed.default_env().into_iter().map(|(k, _)| k).collect();
    assert_eq!(asked, vec!["A".to_string()]);
    assert_eq!(kept, vec!["B".to_string()]);
}
