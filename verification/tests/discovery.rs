use registration_server::config::Config;
use registration_server::discovery::{adddiscovery, discovery, ping, revokediscovery};
use registration_server::error::Error;
use registration_server::lifecycle::{register, subscribe_with_token, unsubscribe};
use registration_server::record::Discovered;
use registration_server::store::Store;

fn found(href: &str, desc: &str) -> Discovered {
    Discovered { href: href.to_string(), desc: desc.to_string() }
}

/// Two devices behind 203.0.113.5, one behind 198.51.100.7, one that never
/// registered.
fn neighbourhood() -> Store {
    let config = Config::new("example.com");
    let mut store = Store::new();
    subscribe_with_token(&mut store, &config, "attic", None, "t-attic").unwrap();
    subscribe_with_token(&mut store, &config, "cellar", Some("Wine"), "t-cellar").unwrap();
    subscribe_with_token(&mut store, &config, "office", None, "t-office").unwrap();
    subscribe_with_token(&mut store, &config, "idle", None, "t-idle").unwrap();
    register(&mut store, "t-attic", "10.0.0.2", "203.0.113.5", 1).unwrap();
    register(&mut store, "t-office", "192.168.1.4", "198.51.100.7", 2).unwrap();
    register(&mut store, "t-cellar", "10.0.0.3", "203.0.113.5", 3).unwrap();
    store
}

#[test]
fn ping_finds_the_devices_behind_the_same_address() {
    let store = neighbourhood();
    assert_eq!(
        ping(&store, "203.0.113.5"),
        vec![
            found("https://local.attic.box.example.com", "attic's server"),
            found("https://local.cellar.box.example.com", "Wine"),
        ]
    );
    assert_eq!(
        ping(&store, "198.51.100.7"),
        vec![found("https://local.office.box.example.com", "office's server")]
    );
}

#[test]
fn ping_from_an_unknown_address_finds_nothing() {
    let store = neighbourhood();
    assert_eq!(ping(&store, "192.0.2.1"), vec![]);
    assert_eq!(ping(&store, ""), vec![]);
    assert_eq!(ping(&Store::new(), "203.0.113.5"), vec![]);
}

#[test]
fn ping_follows_a_device_that_moves() {
    let mut store = neighbourhood();
    register(&mut store, "t-attic", "192.168.1.9", "198.51.100.7", 9).unwrap();
    assert_eq!(
        ping(&store, "203.0.113.5"),
        vec![found("https://local.cellar.box.example.com", "Wine")]
    );
    assert_eq!(
        ping(&store, "198.51.100.7"),
        vec![
            found("https://local.attic.box.example.com", "attic's server"),
            found("https://local.office.box.example.com", "office's server"),
        ]
    );
}

#[test]
fn ping_forgets_a_device_that_unsubscribed() {
    let mut store = neighbourhood();
    unsubscribe(&mut store, "t-attic").unwrap();
    assert_eq!(
        ping(&store, "203.0.113.5"),
        vec![found("https://local.cellar.box.example.com", "Wine")]
    );
}

#[test]
fn adddiscovery_needs_a_known_token() {
    let mut store = neighbourhood();
    assert_eq!(adddiscovery(&mut store, "unknown", "d-1"), Err(Error::NotFound));
    assert_eq!(discovery(&store, "d-1", "203.0.113.5"), Err(Error::NotFound));
}

#[test]
fn adddiscovery_refuses_a_bound_identifier() {
    let mut store = neighbourhood();
    assert_eq!(adddiscovery(&mut store, "t-attic", "d-1"), Ok(()));
    assert_eq!(adddiscovery(&mut store, "t-office", "d-1"), Err(Error::StoreFailure));
    assert_eq!(adddiscovery(&mut store, "t-attic", "d-1"), Err(Error::StoreFailure));
    assert_eq!(
        discovery(&store, "d-1", "198.51.100.7"),
        Ok(vec![found("https://attic.box.example.com", "attic's server")])
    );
}

#[test]
fn an_unknown_token_is_reported_before_a_bound_identifier() {
    let mut store = neighbourhood();
    assert_eq!(adddiscovery(&mut store, "t-attic", "d-1"), Ok(()));
    assert_eq!(adddiscovery(&mut store, "unknown", "d-1"), Err(Error::NotFound));
}

#[test]
fn discovery_of_an_unknown_identifier_is_not_found() {
    let store = neighbourhood();
    assert_eq!(discovery(&store, "d-1", "203.0.113.5"), Err(Error::NotFound));
    assert_eq!(discovery(&Store::new(), "d-1", "203.0.113.5"), Err(Error::NotFound));
}

#[test]
fn discovery_from_the_owners_network_gives_the_local_name() {
    let mut store = neighbourhood();
    adddiscovery(&mut store, "t-attic", "d-1").unwrap();
    assert_eq!(
        discovery(&store, "d-1", "203.0.113.5"),
        Ok(vec![found("https://local.attic.box.example.com", "attic's server")])
    );
}

#[test]
fn discovery_from_another_network_gives_the_public_name() {
    let mut store = neighbourhood();
    adddiscovery(&mut store, "t-attic", "d-1").unwrap();
    assert_eq!(
        discovery(&store, "d-1", "198.51.100.7"),
        Ok(vec![found("https://attic.box.example.com", "attic's server")])
    );
    assert_eq!(
        discovery(&store, "d-1", "192.0.2.1"),
        Ok(vec![found("https://attic.box.example.com", "attic's server")])
    );
}

#[test]
fn discovery_of_a_device_that_never_registered_gives_the_public_name() {
    let mut store = neighbourhood();
    adddiscovery(&mut store, "t-idle", "d-idle").unwrap();
    assert_eq!(
        discovery(&store, "d-idle", "203.0.113.5"),
        Ok(vec![found("https://idle.box.example.com", "idle's server")])
    );
}

#[test]
fn several_identifiers_may_lead_to_one_device() {
    let mut store = neighbourhood();
    adddiscovery(&mut store, "t-cellar", "d-1").unwrap();
    adddiscovery(&mut store, "t-cellar", "d-2").unwrap();
    let near = Ok(vec![found("https://local.cellar.box.example.com", "Wine")]);
    assert_eq!(discovery(&store, "d-1", "203.0.113.5"), near);
    assert_eq!(discovery(&store, "d-2", "203.0.113.5"), near);
}

#[test]
fn revokediscovery_then_discovery_is_not_found() {
    let mut store = neighbourhood();
    adddiscovery(&mut store, "t-attic", "d-1").unwrap();
    adddiscovery(&mut store, "t-attic", "d-2").unwrap();
    assert_eq!(revokediscovery(&mut store, "t-attic", "d-1"), Ok(()));
    assert_eq!(discovery(&store, "d-1", "203.0.113.5"), Err(Error::NotFound));
    assert_eq!(discovery(&store, "d-1", "198.51.100.7"), Err(Error::NotFound));
    assert!(discovery(&store, "d-2", "203.0.113.5").is_ok());
}

#[test]
fn revokediscovery_needs_a_known_token() {
    let mut store = neighbourhood();
    adddiscovery(&mut store, "t-attic", "d-1").unwrap();
    assert_eq!(revokediscovery(&mut store, "unknown", "d-1"), Err(Error::NotFound));
    assert!(discovery(&store, "d-1", "203.0.113.5").is_ok());
}

#[test]
fn revokediscovery_does_not_ask_who_owns_the_identifier() {
    let mut store = neighbourhood();
    adddiscovery(&mut store, "t-attic", "d-1").unwrap();
    assert_eq!(revokediscovery(&mut store, "t-office", "d-1"), Ok(()));
    assert_eq!(discovery(&store, "d-1", "203.0.113.5"), Err(Error::NotFound));
}

#[test]
fn revokediscovery_of_an_unbound_identifier_succeeds() {
    let mut store = neighbourhood();
    assert_eq!(revokediscovery(&mut store, "t-attic", "d-1"), Ok(()));
    assert_eq!(discovery(&store, "d-1", "203.0.113.5"), Err(Error::NotFound));
}

#[test]
fn a_revoked_identifier_can_be_bound_again() {
    let mut store = neighbourhood();
    adddiscovery(&mut store, "t-attic", "d-1").unwrap();
    revokediscovery(&mut store, "t-attic", "d-1").unwrap();
    assert_eq!(adddiscovery(&mut store, "t-office", "d-1"), Ok(()));
    assert_eq!(
        discovery(&store, "d-1", "198.51.100.7"),
        Ok(vec![found("https://local.office.box.example.com", "office's server")])
    );
}

#[test]
fn discovery_of_an_unsubscribed_owner_is_not_found() {
    let mut store = neighbourhood();
    adddiscovery(&mut store, "t-attic", "d-1").unwrap();
    unsubscribe(&mut store, "t-attic").unwrap();
    assert_eq!(discovery(&store, "d-1", "203.0.113.5"), Err(Error::NotFound));
    assert_eq!(discovery(&store, "d-1", "198.51.100.7"), Err(Error::NotFound));
    assert_eq!(adddiscovery(&mut store, "t-office", "d-1"), Err(Error::StoreFailure));
}
