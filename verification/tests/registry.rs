use aerial::envelope::AgentId;
use aerial::registry::{RegisteredAgent, Registry};

#[test]
fn newest_registration_wins_name() {
    let mut registry = Registry::new();

    let first = registry.register("engineer".to_string());
    let second = registry.register("engineer".to_string());

    assert_ne!(first.id, second.id);
    assert_eq!(registry.resolve("engineer"), Some(&second));
    assert_eq!(registry.len(), 1);
}

#[test]
fn restore_keeps_the_given_identity() {
    let mut registry = Registry::default();
    assert!(registry.is_empty());
    let agent = registry.restore("researcher".to_string(), AgentId(7), 42);
    assert_eq!(agent, RegisteredAgent { id: AgentId(7), name: "researcher".to_string(), connected_at: 42 });
    assert_eq!(registry.resolve("researcher"), Some(&agent));
    assert!(!registry.is_empty());
}

#[test]
fn unregister_hands_back_the_registration() {
    let mut registry = Registry::new();
    let agent = registry.restore("a".to_string(), AgentId(1), 1);
    assert_eq!(registry.unregister("b"), None);
    assert_eq!(registry.unregister("a"), Some(agent));
    assert_eq!(registry.resolve("a"), None);
    assert_eq!(registry.len(), 0);
}

#[test]
fn agents_are_listed_by_name() {
    let mut registry = Registry::new();
    registry.restore("zed".to_string(), AgentId(1), 1);
    registry.restore("alice".to_string(), AgentId(2), 2);
    registry.restore("Bob".to_string(), AgentId(3), 3);
    registry.restore("bob".to_string(), AgentId(4), 4);
    registry.restore("ali".to_string(), AgentId(5), 5);
    registry.restore("alice".to_string(), AgentId(6), 6);
    let names: Vec<String> = registry.agents().into_iter().map(|a| a.name).collect();
    assert_eq!(names, vec!["Bob", "ali", "alice", "bob", "zed"]);
    assert_eq!(registry.resolve("alice").map(|a| a.id), Some(AgentId(6)));
    assert_eq!(registry.len(), 5);
}

#[test]
fn agent_listing_has_one_entry_per_name() {
    let mut registry = Registry::new();
    registry.register("engineer".to_string());
    registry.register("researcher".to_string());
    let latest = registry.register("engineer".to_string());
    let agents = registry.agents();
    assert_eq!(agents.len(), registry.len());
    assert_eq!(agents.iter().filter(|a| a.name == "engineer").count(), 1);
    assert_eq!(agents[0], latest);
}
