//! The agent registry.
use nexus::manifest::{AgentManifest, CapabilityDecl};
use nexus::registry::AgentRegistry;
use nexus::types::Did;

fn did(s: &str) -> Did {
    Did::new(&format!("did:key:{s}"))
}

fn make_agent(did: Did, name: &str, capabilities: &[(&str, u64)]) -> AgentManifest {
    let mut m = AgentManifest::new(did, name, 0);
    for (cap_name, price) in capabilities {
        m = m.provide(CapabilityDecl {
            name: cap_name.to_string(),
            description: String::new(),
            version: "1.0".into(),
            price_per_unit: *price,
            price_unit: "per-second".into(),
        });
    }
    m
}

#[test]
fn find_by_capability() {
    let mut reg = AgentRegistry::new();
    let a = did("A");
    let b = did("B");
    reg.register(make_agent(a.clone(), "Alice", &[("python-exec", 5)]));
    reg.register(make_agent(
        b.clone(),
        "Bob",
        &[("python-exec", 3), ("image-gen", 10)],
    ));

    let python_agents = reg.find_by_capability("python-exec");
    assert_eq!(python_agents.len(), 2);

    let image_agents = reg.find_by_capability("image-gen");
    assert_eq!(image_agents.len(), 1);
}

#[test]
fn cheapest_for() {
    let mut reg = AgentRegistry::new();
    reg.register(make_agent(did("A"), "Alice", &[("python-exec", 10)]));
    reg.register(make_agent(did("B"), "Bob", &[("python-exec", 3)]));
    reg.register(make_agent(did("C"), "Carol", &[("python-exec", 7)]));

    let cheapest = reg.cheapest_for("python-exec").unwrap();
    assert_eq!(cheapest.name, "Bob");
}

#[test]
fn unregister_removes_from_index() {
    let mut reg = AgentRegistry::new();
    let a = did("A");
    reg.register(make_agent(a.clone(), "Alice", &[("python-exec", 5)]));
    assert_eq!(reg.find_by_capability("python-exec").len(), 1);

    reg.unregister(&a);
    assert_eq!(reg.find_by_capability("python-exec").len(), 0);
    assert!(reg.get(&a).is_none());
}

#[test]
fn reregister_updates_capabilities() {
    let mut reg = AgentRegistry::new();
    let a = did("A");
    reg.register(make_agent(a.clone(), "Alice", &[("python-exec", 5)]));
    reg.register(make_agent(a.clone(), "Alice", &[("image-gen", 8)]));

    assert!(reg.find_by_capability("python-exec").is_empty());
    assert_eq!(reg.find_by_capability("image-gen").len(), 1);
}

#[test]
fn index_follows_the_manifests() {
    let mut reg = AgentRegistry::new();
    assert!(reg.is_empty());
    reg.register(make_agent(did("A"), "Alice", &[("x", 1), ("y", 2)]));
    reg.register(make_agent(did("B"), "Bob", &[("x", 1)]));
    assert_eq!(reg.len(), 2);
    assert_eq!(reg.all().len(), 2);
    // Of equals, the first one registered.
    assert_eq!(reg.cheapest_for("x").unwrap().name, "Alice");
    reg.register(make_agent(did("A"), "Alice", &[("x", 1)]));
    assert_eq!(reg.cheapest_for("x").unwrap().name, "Bob");
    assert!(reg.cheapest_for("y").is_none());
    reg.unregister(&did("nobody"));
    assert_eq!(reg.len(), 2);
}

#[test]
fn an_agent_that_declares_a_name_twice_is_found_once() {
    let decl = |price: u64| CapabilityDecl {
        name: "python-exec".into(),
        description: String::new(),
        version: "1.0".into(),
        price_per_unit: price,
        price_unit: "per-second".into(),
    };
    let mut registry = AgentRegistry::new();
    registry.register(
        AgentManifest::new(Did::new("did:key:A"), "Alice", 0)
            .provide(decl(5))
            .provide(decl(9)),
    );
    assert_eq!(registry.find_by_capability("python-exec").len(), 1);
    registry.register(AgentManifest::new(Did::new("did:key:B"), "Bob", 0).provide(decl(4)));
    assert_eq!(registry.find_by_capability("python-exec").len(), 2);
    assert_eq!(registry.cheapest_for("python-exec").unwrap().name, "Bob");
    registry.unregister(&Did::new("did:key:B"));
    assert_eq!(registry.cheapest_for("python-exec").unwrap().name, "Alice");
}
