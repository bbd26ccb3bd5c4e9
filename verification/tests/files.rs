use fusiontunx::files::{check_yaml_ext, is_active_config, is_path_safe, is_under, normalize_dir, paths_equal};

#[test]
fn managed_directories() {
    assert_eq!(normalize_dir("configs"), Some("configs"));
    assert_eq!(normalize_dir("proxy-providers"), Some("proxy_providers"));
    assert_eq!(normalize_dir("proxy_providers"), Some("proxy_providers"));
    assert_eq!(normalize_dir("rule-providers"), Some("rule_providers"));
    assert_eq!(normalize_dir("rule_providers"), Some("rule_providers"));
    assert_eq!(normalize_dir("Configs"), None);
    assert_eq!(normalize_dir("../etc"), None);
}

#[test]
fn yaml_names() {
    assert!(check_yaml_ext("config.yaml"));
    assert!(check_yaml_ext("a.yml"));
    assert!(!check_yaml_ext("a.json"));
    assert!(!check_yaml_ext("yaml"));
    assert!(!check_yaml_ext("a.YAML"));
}

#[test]
fn path_containment_by_components() {
    assert!(is_under("/etc/fusiontunx/configs/a.yaml", "/etc/fusiontunx/configs"));
    assert!(is_under("/etc/fusiontunx/configs", "/etc/fusiontunx/configs/"));
    assert!(!is_under("/etc/fusiontunx/configs2/a.yaml", "/etc/fusiontunx/configs"));
    assert!(!is_under("/etc", "/etc/fusiontunx"));
    assert!(is_under("/a//b", "/a/b"));
    assert!(!is_under("a/b", "/a"));
}

#[test]
fn containment_agrees_with_std_path() {
    let cases = [
        ("/x/y/z", "/x/y"), ("/x/yz", "/x/y"), ("/", "/"), ("/x", "/"), ("x/y", "x"), ("/x/./y", "/x"),
        ("/x/./y", "/x/y"), ("./a", "a"), ("./a/b", "./a"), (".", ""), ("a", ""), ("././a", "./a"), ("a/..", "a"),
        ("/a/../b", "/a"), ("//a", "/a"), ("a/", "a"), (".a/b", ".a"), ("/.", "/"), ("", "."),
    ];
    for (p, b) in cases {
        assert_eq!(is_under(p, b), std::path::Path::new(p).starts_with(b), "{} {}", p, b);
    }
}

#[test]
fn path_safety_falls_back_to_parent() {
    let base = Some("/etc/fusiontunx/configs".to_string());
    assert!(is_path_safe(Some("/etc/fusiontunx/configs/a.yaml".to_string()), None, base.clone()));
    assert!(!is_path_safe(Some("/etc/passwd".to_string()), Some("/etc/fusiontunx/configs".to_string()), base.clone()));
    assert!(is_path_safe(None, Some("/etc/fusiontunx/configs".to_string()), base.clone()));
    assert!(!is_path_safe(None, Some("/tmp".to_string()), base.clone()));
    assert!(!is_path_safe(None, None, base));
    assert!(!is_path_safe(Some("/etc/fusiontunx/configs/a.yaml".to_string()), None, None));
}

#[test]
fn path_equality_by_components() {
    let cases = [
        ("/a/b", "/a/b/"), ("/a//b", "/a/b"), ("/a/b", "/a/c"), ("a/b", "/a/b"), ("/", "/"), ("/a", "/a/b"),
        ("/etc/configs/./a.yaml", "/etc/configs/a.yaml"), ("./a", "a"), ("a/.", "a"), (".", ""), ("./", "."),
    ];
    for (a, b) in cases {
        assert_eq!(paths_equal(a, b), std::path::Path::new(a) == std::path::Path::new(b), "{} {}", a, b);
    }
}

#[test]
fn active_configuration_file() {
    let active = "/etc/fusiontunx/configs/config.yaml";
    assert!(is_active_config("configs", "/etc/fusiontunx/configs/config.yaml", active));
    assert!(!is_active_config("proxy_providers", "/etc/fusiontunx/configs/config.yaml", active));
    assert!(!is_active_config("configs", "/etc/fusiontunx/configs/other.yaml", active));
}
