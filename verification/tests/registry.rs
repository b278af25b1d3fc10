use enki::registry::{AgentCard, AgentRegistry, AgentStatus, DiscoverQuery, FirstMatchSelector, PeerSelector};

#[test]
fn register_and_get_by_id() {
    let mut registry = AgentRegistry::new();
    let card = AgentCard::new("agent-a", "Alpha", "First agent", vec!["code-gen".into()]);
    registry.register(card);

    let found = registry.get("agent-a");
    assert!(found.is_some());
    let found = found.unwrap();
    assert_eq!(found.name, "Alpha");
    assert_eq!(found.capabilities, vec!["code-gen"]);
}

#[test]
fn get_returns_none_for_unknown_id() {
    let registry = AgentRegistry::new();
    assert!(registry.get("unknown").is_none());
}

#[test]
fn register_and_discover_by_capability() {
    let mut registry = AgentRegistry::new();
    registry.register(AgentCard::new("agent-a", "Alpha", "Code gen", vec!["code-gen".into()]));
    registry.register(AgentCard::new("agent-b", "Beta", "Research", vec!["research".into()]));

    let query = DiscoverQuery::new().with_capability("research");
    let results = registry.discover(&query);
    assert_eq!(results.len(), 1);
    assert_eq!(results[0].agent_id, "agent-b");
}

#[test]
fn discover_by_status() {
    let mut registry = AgentRegistry::new();
    registry.register(AgentCard::new("agent-a", "A", "...", vec![]).with_status(AgentStatus::Online));
    registry.register(AgentCard::new("agent-b", "B", "...", vec![]).with_status(AgentStatus::Offline));

    let query = DiscoverQuery::new().with_status(AgentStatus::Offline);
    let results = registry.discover(&query);
    assert_eq!(results.len(), 1);
    assert_eq!(results[0].agent_id, "agent-b");
}

#[test]
fn discover_with_combined_filters() {
    let mut registry = AgentRegistry::new();
    registry.register(AgentCard::new("agent-a", "A", "...", vec!["code-gen".into()]).with_status(AgentStatus::Online));
    registry.register(AgentCard::new("agent-b", "B", "...", vec!["code-gen".into()]).with_status(AgentStatus::Busy));
    registry.register(AgentCard::new("agent-c", "C", "...", vec!["research".into()]).with_status(AgentStatus::Online));

    let query = DiscoverQuery::new().with_capability("code-gen").with_status(AgentStatus::Online);
    let results = registry.discover(&query);
    assert_eq!(results.len(), 1);
    assert_eq!(results[0].agent_id, "agent-a");
}

#[test]
fn deregister_removes_agent() {
    let mut registry = AgentRegistry::new();
    registry.register(AgentCard::new("agent-a", "A", "...", vec![]));

    assert!(registry.deregister("agent-a"));
    assert!(registry.get("agent-a").is_none());
}

#[test]
fn deregister_returns_false_for_unknown() {
    let mut registry = AgentRegistry::new();
    assert!(!registry.deregister("ghost"));
}

#[test]
fn update_status() {
    let mut registry = AgentRegistry::new();
    registry.register(AgentCard::new("agent-a", "A", "...", vec![]));

    assert!(registry.update_status("agent-a", AgentStatus::Busy));
    let card = registry.get("agent-a").unwrap();
    assert_eq!(card.status, AgentStatus::Busy);
}

#[test]
fn update_status_returns_false_for_unknown() {
    let mut registry = AgentRegistry::new();
    assert!(!registry.update_status("ghost", AgentStatus::Offline));
}

#[test]
fn list_all_returns_full_registry() {
    let mut registry = AgentRegistry::new();
    registry.register(AgentCard::new("a", "A", "...", vec![]));
    registry.register(AgentCard::new("b", "B", "...", vec![]));
    registry.register(AgentCard::new("c", "C", "...", vec![]));

    let all = registry.list_all();
    assert_eq!(all.len(), 3);
}

#[test]
fn agent_card_has_capability_is_case_insensitive() {
    let card = AgentCard::new("a", "A", "...", vec!["Code-Gen".into()]);
    assert!(card.has_capability("code-gen"));
    assert!(card.has_capability("CODE-GEN"));
    assert!(!card.has_capability("research"));
}

#[test]
fn agent_card_metadata() {
    let card = AgentCard::new("a", "A", "...", vec![])
        .with_metadata("cost", "0.01")
        .with_metadata("latency", "50ms");

    assert_eq!(card.metadata_value("cost").unwrap(), "0.01");
    assert_eq!(card.metadata_value("latency").unwrap(), "50ms");
}

#[test]
fn first_match_selector_picks_first_online() {
    let selector = FirstMatchSelector;
    let candidates = vec![
        AgentCard::new("a", "A", "...", vec![]).with_status(AgentStatus::Offline),
        AgentCard::new("b", "B", "...", vec![]).with_status(AgentStatus::Online),
        AgentCard::new("c", "C", "...", vec![]).with_status(AgentStatus::Online),
    ];

    let selected = selector.select(&candidates, "some task");
    assert_eq!(selected, Some("b".to_string()));
}

#[test]
fn first_match_selector_returns_none_when_all_offline() {
    let selector = FirstMatchSelector;
    let candidates = vec![AgentCard::new("a", "A", "...", vec![]).with_status(AgentStatus::Offline)];

    let selected = selector.select(&candidates, "some task");
    assert!(selected.is_none());
}

#[test]
fn registering_again_replaces_the_card() {
    let mut registry = AgentRegistry::new();
    registry.register(AgentCard::new("a", "Old", "...", vec![]));
    registry.register(AgentCard::new("a", "New", "...", vec![]));
    assert_eq!(registry.list_all().len(), 1);
    assert_eq!(registry.get("a").unwrap().name, "New");
}

#[test]
fn metadata_keys_are_replaced_not_repeated() {
    let card = AgentCard::new("a", "A", "...", vec![]).with_metadata("cost", "1").with_metadata("cost", "2");
    assert_eq!(card.metadata.len(), 1);
    assert_eq!(card.metadata_value("cost").unwrap(), "2");
    assert!(card.metadata_value("latency").is_none());
}

#[test]
fn status_names_parse_in_any_case() {
    assert_eq!(AgentStatus::from_str_loose("ONLINE"), Some(AgentStatus::Online));
    assert_eq!(AgentStatus::from_str_loose("Busy"), Some(AgentStatus::Busy));
    assert_eq!(AgentStatus::from_str_loose("gone"), None);
}
