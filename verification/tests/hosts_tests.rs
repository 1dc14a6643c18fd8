use pctx::hosts::{derive_allowed_hosts, AllowedHosts};

#[test]
fn test_empty_allow_list_denies_all() {
    let hosts = AllowedHosts::new(None);
    assert!(!hosts.is_allowed("example.com"));
    let hosts2 = AllowedHosts::new(Some(vec![]));
    assert!(!hosts2.is_allowed("example.com"));
}

#[test]
fn test_permission_denial_message() {
    let hosts = AllowedHosts::new(Some(vec!["localhost:3000".to_string()]));
    let err = hosts
        .fetch_permission("http://example.com")
        .expect_err("a host off the list must be denied");
    assert!(err.message().contains("Network access"));
    assert!(err.message().contains("example.com"));
}

#[test]
fn test_permission_grant() {
    let hosts = AllowedHosts::new(Some(vec!["localhost:8888".to_string()]));
    let granted = hosts
        .fetch_permission("http://localhost:8888/")
        .expect("an allow-listed host:port must pass");
    assert_eq!(granted, "localhost:8888");
}

#[test]
fn test_bare_host_entry_also_matches() {
    let hosts = AllowedHosts::new(Some(vec!["api.example.com".to_string()]));
    assert!(hosts.host_permitted("api.example.com", Some(8443)));
    assert!(hosts.host_permitted("api.example.com", None));
    assert!(!hosts.host_permitted("other.example.com", None));
}

#[test]
fn test_add_remove_clear() {
    let mut hosts = AllowedHosts::new(None);
    hosts.add("localhost:3000".to_string());
    assert!(hosts.is_allowed("localhost:3000"));
    assert!(hosts.remove("localhost:3000"));
    assert!(!hosts.is_allowed("localhost:3000"));
    assert!(!hosts.remove("localhost:3000"));
    hosts.add("a".to_string());
    hosts.add("b".to_string());
    hosts.clear();
    assert!(!hosts.is_allowed("a"));
    assert!(!hosts.is_allowed("b"));
}

#[test]
fn test_derive_allowed_hosts_scheme_defaults() {
    let urls = vec![
        "https://api.example.com/mcp".to_string(),
        "http://localhost:3000/mcp".to_string(),
        "http://plain.example.org/".to_string(),
        "not a url".to_string(),
    ];
    let derived = derive_allowed_hosts(&urls);
    assert_eq!(
        derived,
        vec![
            "api.example.com:443".to_string(),
            "localhost:3000".to_string(),
            "plain.example.org:80".to_string(),
        ]
    );
}
