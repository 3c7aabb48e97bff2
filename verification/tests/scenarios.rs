use state_machine::scenario::builder::Builder;
use state_machine::scenario::{Client, Compose, Id, Router, Scenario, Server, Service};
use std::collections::BTreeMap;

fn id(value: &str) -> Id {
    Id { value: value.to_string() }
}

#[test]
fn a_named_client_is_hosted_under_its_name() {
    let client = Client { name: "alice".to_string(), configuration: BTreeMap::new() };
    let service = client.compose(&id("f00d"), 3);
    assert_eq!(service.hostname.as_deref(), Some("3.client.alice"));
}

#[test]
fn an_unnamed_client_is_hosted_under_the_scenario_id() {
    let client = Client { name: String::new(), configuration: BTreeMap::new() };
    let service = client.compose(&id("f00d"), 0);
    assert_eq!(service.hostname.as_deref(), Some("0.client.f00d"));
}

#[test]
fn servers_and_routers_have_their_own_roles() {
    let server = Server { name: "db".to_string(), configuration: BTreeMap::new() };
    let router = Router { name: String::new(), configuration: BTreeMap::new() };
    assert_eq!(server.compose(&id("x"), 12).hostname.as_deref(), Some("12.server.db"));
    assert_eq!(router.compose(&id("x"), 120).hostname.as_deref(), Some("120.router.x"));
    let unnamed = Server { name: String::new(), configuration: BTreeMap::new() };
    assert_eq!(unnamed.compose(&id("abc"), 1).hostname.as_deref(), Some("1.server.abc"));
    let named = Router { name: "edge".to_string(), configuration: BTreeMap::new() };
    assert_eq!(named.compose(&id("abc"), 7).hostname.as_deref(), Some("7.router.edge"));
}

#[test]
fn the_largest_index_is_written_in_full() {
    let client = Client { name: "c".to_string(), configuration: BTreeMap::new() };
    assert_eq!(
        client.compose(&id(""), usize::MAX).hostname,
        Some(format!("{}.client.c", usize::MAX))
    );
}

#[test]
fn defaults_are_empty() {
    assert_eq!(Service::default().hostname, None);
    assert!(Compose::default().services.is_empty());
}

#[test]
fn build_hands_a_fresh_builder_to_the_closure() {
    let scenario = Scenario::build(|builder: &mut Builder| {
        builder.id("run-1");
        assert_eq!(builder.server("first"), 0);
        assert_eq!(builder.client("a"), 0);
        assert_eq!(builder.client(""), 1);
        assert_eq!(builder.router("r"), 0);
        builder.trace("handshake");
    });
    assert_eq!(scenario.id.value, "run-1");
    assert_eq!(scenario.clients.len(), 2);
    assert_eq!(scenario.clients[0].name, "a");
    assert_eq!(scenario.clients[1].name, "");
    assert!(scenario.clients[1].configuration.is_empty());
    assert_eq!(scenario.servers.len(), 1);
    assert_eq!(scenario.servers[0].name, "first");
    assert_eq!(scenario.routers.len(), 1);
    assert_eq!(scenario.traces, vec!["handshake".to_string()]);
    assert!(scenario.compose().services.is_empty());
    assert_eq!(
        scenario.clients[1].compose(&scenario.id, 1).hostname.as_deref(),
        Some("1.client.run-1")
    );
}

#[test]
fn building_nothing_gives_the_empty_scenario() {
    let scenario = Scenario::build(|_builder: &mut Builder| {});
    assert_eq!(scenario.id.value, "");
    assert!(scenario.clients.is_empty());
    assert!(scenario.servers.is_empty());
    assert!(scenario.routers.is_empty());
    assert!(scenario.traces.is_empty());
    let direct = Builder::new().finish();
    assert_eq!(direct.id.value, "");
    assert!(direct.clients.is_empty());
}
