//! Agent manifests.
use nexus::manifest::{AgentManifest, CapabilityDecl};
use nexus::types::Did;

fn did(s: &str) -> Did {
    Did::new(&format!("did:key:{s}"))
}

#[test]
fn manifest_provides_named() {
    let agent = did("agent1");
    let manifest = AgentManifest::new(agent, "test-agent", 0).provide(CapabilityDecl {
        name: "python-exec".into(),
        description: "Runs Python scripts".into(),
        version: "1.0".into(),
        price_per_unit: 5,
        price_unit: "per-second".into(),
    });

    assert!(manifest.provides_named("python-exec"));
    assert!(!manifest.provides_named("image-gen"));
}

#[test]
fn manifest_json_roundtrip() {
    let agent = did("agent1");
    let manifest = AgentManifest::new(agent, "test", 100).provide(CapabilityDecl {
        name: "data-fetch".into(),
        description: "Fetches data".into(),
        version: "1.0".into(),
        price_per_unit: 10,
        price_unit: "per-request".into(),
    });

    let json = manifest.to_json();
    let decoded: serde_json::Value = serde_json::from_slice(&json).unwrap();
    assert_eq!(decoded["name"], "test");
    assert_eq!(decoded["provides"][0]["name"], "data-fetch");
    assert_eq!(
        String::from_utf8(json).unwrap(),
        concat_text(&[
            r#"{"did":"did:key:agent1","name":"test","description":"","provides":[{"name":"data-fetch","#,
            r#""description":"Fetches data","version":"1.0","price_per_unit":10,"price_unit":"per-request"}],"#,
            r#""requires":[],"goals":[],"values":[],"preferences":[],"workspace_roles":[],"#,
            r#""agent_version":"0.1.0","created_at":100}"#,
        ])
    );
}

fn concat_text(parts: &[&str]) -> String {
    parts.join("")
}

#[test]
fn manifest_social_profile_roundtrip() {
    let agent = did("agent1");
    let manifest = AgentManifest::new(agent, "social-agent", 100)
        .goal("build shared memory")
        .value("autonomy")
        .preference("async collaboration")
        .workspace_role("researcher");

    let json = manifest.to_json();
    let decoded: serde_json::Value = serde_json::from_slice(&json).unwrap();
    assert_eq!(decoded["goals"][0], "build shared memory");
    assert_eq!(decoded["values"][0], "autonomy");
    assert_eq!(decoded["preferences"][0], "async collaboration");
    assert_eq!(decoded["workspace_roles"][0], "researcher");
}

#[test]
fn the_first_declaration_of_a_name_is_found() {
    let decl = |price: u64| CapabilityDecl {
        name: "x".into(),
        description: String::new(),
        version: "1".into(),
        price_per_unit: price,
        price_unit: "per-second".into(),
    };
    let manifest = AgentManifest::new(did("a"), "a", 0)
        .provide(decl(3))
        .provide(decl(2))
        .require(decl(1));
    assert_eq!(manifest.find_provided("x").unwrap().price_per_unit, 3);
    assert!(manifest.find_provided("y").is_none());
    assert_eq!(manifest.requires_caps.len(), 1);
}
