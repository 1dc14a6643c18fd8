use pctx::registry::{MCPRegistry, MCPServerConfig};

fn cfg(name: &str, url: &str) -> MCPServerConfig {
    MCPServerConfig { name: name.to_string(), url: url.to_string() }
}

#[test]
fn test_registry_new() {
    let registry = MCPRegistry::new();
    assert!(!registry.has("test-server"), "New registry should be empty");
}

#[test]
fn test_registry_add_and_has() {
    let mut registry = MCPRegistry::new();
    registry
        .add(cfg("test-server", "http://localhost:3000"))
        .expect("Should add server successfully");
    assert!(registry.has("test-server"), "Server should be registered");
}

#[test]
fn test_registry_add_duplicate_fails() {
    let mut registry = MCPRegistry::new();
    registry
        .add(cfg("duplicate-server", "http://localhost:3000"))
        .expect("First add should succeed");

    let result = registry.add(cfg("duplicate-server", "http://localhost:3001"));
    assert!(result.is_err(), "Duplicate registration should fail");

    let err = result.unwrap_err();
    assert!(
        err.message().contains("already registered"),
        "Error message should mention duplicate registration"
    );
}

#[test]
fn test_registry_get() {
    let mut registry = MCPRegistry::new();
    registry.add(cfg("my-server", "http://localhost:4000")).expect("Should add server");

    let retrieved = registry.get("my-server").expect("Should retrieve server");
    assert_eq!(retrieved.name, "my-server");
    assert_eq!(retrieved.url, "http://localhost:4000");
}

#[test]
fn test_registry_get_nonexistent() {
    let registry = MCPRegistry::new();
    let result = registry.get("nonexistent-server");
    assert!(result.is_none(), "Should return None for nonexistent server");
}

#[test]
fn test_registry_delete() {
    let mut registry = MCPRegistry::new();
    registry.add(cfg("temp-server", "http://localhost:5000")).expect("Should add server");
    assert!(registry.has("temp-server"), "Server should exist");

    let deleted = registry.delete("temp-server");
    assert!(deleted, "Delete should return true");
    assert!(!registry.has("temp-server"), "Server should no longer exist");
}

#[test]
fn test_registry_delete_nonexistent() {
    let mut registry = MCPRegistry::new();
    let deleted = registry.delete("nonexistent-server");
    assert!(!deleted, "Delete should return false for nonexistent server");
}

#[test]
fn test_registry_clear() {
    let mut registry = MCPRegistry::new();
    let configs = vec![
        cfg("server1", "http://localhost:3000"),
        cfg("server2", "http://localhost:3001"),
        cfg("server3", "http://localhost:3002"),
    ];
    for config in configs {
        registry.add(config).expect("Should add server");
    }
    assert!(registry.has("server1"), "Server 1 should exist");
    assert!(registry.has("server2"), "Server 2 should exist");
    assert!(registry.has("server3"), "Server 3 should exist");

    registry.clear();

    assert!(!registry.has("server1"), "Server 1 should be cleared");
    assert!(!registry.has("server2"), "Server 2 should be cleared");
    assert!(!registry.has("server3"), "Server 3 should be cleared");
}

#[test]
fn test_registry_multiple_servers() {
    let mut registry = MCPRegistry::new();
    let servers = vec![
        ("server1", "http://localhost:3000"),
        ("server2", "http://localhost:3001"),
        ("server3", "http://localhost:3002"),
        ("server4", "http://localhost:3003"),
    ];
    for (name, url) in &servers {
        registry.add(cfg(name, url)).expect("Should add server");
    }
    for (name, url) in &servers {
        assert!(registry.has(name), "Server {name} should exist");
        let config = registry.get(name).expect("Should get server");
        assert_eq!(&config.url, url, "URL should match for {name}");
    }
}
