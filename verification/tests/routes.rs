use registration_server::config::Config;
use registration_server::error::Error;
use registration_server::lifecycle::{info, subscribe_with_token, NameAndToken};
use registration_server::record::Discovered;
use registration_server::routes::{
    create, refuse, respond, status_code, Operation, Query, Response, Route,
};
use registration_server::store::Store;

const OPERATIONS: [Operation; 9] = [
    Operation::Register,
    Operation::Info,
    Operation::Subscribe,
    Operation::Unsubscribe,
    Operation::Dnsconfig,
    Operation::Ping,
    Operation::Adddiscovery,
    Operation::Revokediscovery,
    Operation::Discovery,
];

const BAD_REQUEST: Response = Response::Failed { status: 400, errno: 400 };

fn example() -> Config {
    Config::new("example.com")
}

fn text(s: &str) -> Option<String> {
    Some(s.to_string())
}

fn subscribed() -> Store {
    let mut store = Store::new();
    subscribe_with_token(&mut store, &example(), "myhouse", None, "t-1").unwrap();
    store
}

#[test]
fn create_mounts_the_bridge_without_a_socket() {
    let table = create(&example());
    assert_eq!(
        table,
        vec![
            Route::Serve(Operation::Register),
            Route::Serve(Operation::Info),
            Route::Serve(Operation::Subscribe),
            Route::Serve(Operation::Unsubscribe),
            Route::Serve(Operation::Dnsconfig),
            Route::Serve(Operation::Ping),
            Route::Serve(Operation::Adddiscovery),
            Route::Serve(Operation::Revokediscovery),
            Route::Serve(Operation::Discovery),
            Route::Pdns,
        ]
    );
}

#[test]
fn create_leaves_the_bridge_out_with_a_socket() {
    let config = Config { domain: "example.com".to_string(), socket_path: text("/tmp/pdns.sock") };
    let table = create(&config);
    assert_eq!(table.len(), 9);
    assert!(!table.contains(&Route::Pdns));
    assert_eq!(table[0], Route::Serve(Operation::Register));
    assert_eq!(table[8], Route::Serve(Operation::Discovery));
}

#[test]
fn routes_are_named_after_their_operations() {
    let names: Vec<&str> = create(&example()).iter().map(|route| route.name()).collect();
    assert_eq!(
        names,
        vec![
            "register",
            "info",
            "subscribe",
            "unsubscribe",
            "dnsconfig",
            "ping",
            "adddiscovery",
            "revokediscovery",
            "discovery",
            "pdns",
        ]
    );
}

#[test]
fn config_new_serves_the_bridge_over_http() {
    let config = example();
    assert_eq!(config.domain, "example.com");
    assert_eq!(config.socket_path, None);
}

#[test]
fn status_code_blames_the_client_but_for_store_failures() {
    for operation in OPERATIONS {
        assert_eq!(status_code(operation, Error::InvalidRequest), 400);
        assert_eq!(status_code(operation, Error::NotFound), 400);
        assert_eq!(status_code(operation, Error::NameUnavailable), 400);
    }
    assert_eq!(status_code(Operation::Register, Error::StoreFailure), 500);
    assert_eq!(status_code(Operation::Info, Error::StoreFailure), 500);
    assert_eq!(status_code(Operation::Subscribe, Error::StoreFailure), 500);
    assert_eq!(status_code(Operation::Unsubscribe, Error::StoreFailure), 500);
    assert_eq!(status_code(Operation::Dnsconfig, Error::StoreFailure), 500);
    assert_eq!(status_code(Operation::Discovery, Error::StoreFailure), 500);
    assert_eq!(status_code(Operation::Ping, Error::StoreFailure), 400);
    assert_eq!(status_code(Operation::Adddiscovery, Error::StoreFailure), 400);
    assert_eq!(status_code(Operation::Revokediscovery, Error::StoreFailure), 400);
}

#[test]
fn refuse_reports_status_and_error_number() {
    assert_eq!(refuse(Operation::Register, Error::InvalidRequest), BAD_REQUEST);
    assert_eq!(refuse(Operation::Register, Error::NotFound), BAD_REQUEST);
    assert_eq!(
        refuse(Operation::Register, Error::StoreFailure),
        Response::Failed { status: 500, errno: 501 }
    );
    assert_eq!(refuse(Operation::Adddiscovery, Error::StoreFailure), BAD_REQUEST);
    assert_eq!(refuse(Operation::Subscribe, Error::NameUnavailable), Response::UnavailableName);
}

#[test]
fn a_query_starts_without_parameters() {
    assert_eq!(
        Query::new(),
        Query { name: None, desc: None, token: None, local_ip: None, challenge: None, disco: None }
    );
}

#[test]
fn every_operation_but_ping_needs_a_parameter() {
    for operation in OPERATIONS {
        let mut store = subscribed();
        let response = respond(&mut store, &example(), operation, &Query::new(), "203.0.113.5", 7);
        if operation == Operation::Ping {
            assert_eq!(response, Response::Found(vec![]));
        } else {
            assert_eq!(response, BAD_REQUEST);
        }
        assert_eq!(info(&store, "t-1").unwrap().timestamp, 0);
    }
}

#[test]
fn register_needs_token_and_local_ip() {
    let mut store = subscribed();
    let only_token = Query { token: text("t-1"), ..Query::new() };
    let only_ip = Query { local_ip: text("10.0.0.2"), ..Query::new() };
    let both = Query { token: text("t-1"), local_ip: text("10.0.0.2"), ..Query::new() };
    let config = example();
    assert_eq!(respond(&mut store, &config, Operation::Register, &only_token, "ip", 7), BAD_REQUEST);
    assert_eq!(respond(&mut store, &config, Operation::Register, &only_ip, "ip", 7), BAD_REQUEST);
    assert_eq!(info(&store, "t-1").unwrap().public_ip, None);
    assert_eq!(
        respond(&mut store, &config, Operation::Register, &both, "203.0.113.5", 7),
        Response::Done
    );
    let record = info(&store, "t-1").unwrap();
    assert_eq!(record.local_ip, text("10.0.0.2"));
    assert_eq!(record.public_ip, text("203.0.113.5"));
    assert_eq!(record.timestamp, 7);
}

#[test]
fn register_with_an_unknown_token_is_a_bad_request() {
    let mut store = subscribed();
    let query = Query { token: text("t-9"), local_ip: text("10.0.0.2"), ..Query::new() };
    assert_eq!(
        respond(&mut store, &example(), Operation::Register, &query, "203.0.113.5", 7),
        BAD_REQUEST
    );
}

#[test]
fn dnsconfig_needs_token_and_challenge() {
    let mut store = subscribed();
    let config = example();
    let only_token = Query { token: text("t-1"), ..Query::new() };
    let only_challenge = Query { challenge: text("c1"), ..Query::new() };
    let both = Query { token: text("t-1"), challenge: text("c1"), ..Query::new() };
    assert_eq!(respond(&mut store, &config, Operation::Dnsconfig, &only_token, "ip", 7), BAD_REQUEST);
    assert_eq!(
        respond(&mut store, &config, Operation::Dnsconfig, &only_challenge, "ip", 7),
        BAD_REQUEST
    );
    assert_eq!(respond(&mut store, &config, Operation::Dnsconfig, &both, "ip", 7), Response::Done);
    assert_eq!(info(&store, "t-1").unwrap().dns_challenge, text("c1"));
    assert_eq!(info(&store, "t-1").unwrap().timestamp, 0);
}

#[test]
fn info_answers_the_record() {
    let mut store = subscribed();
    let expected = info(&store, "t-1").unwrap();
    let query = Query { token: text("t-1"), ..Query::new() };
    assert_eq!(
        respond(&mut store, &example(), Operation::Info, &query, "ip", 7),
        Response::Record(expected)
    );
    let unknown = Query { token: text("t-9"), ..Query::new() };
    assert_eq!(respond(&mut store, &example(), Operation::Info, &unknown, "ip", 7), BAD_REQUEST);
}

#[test]
fn subscribe_answers_name_and_token() {
    let mut store = Store::new();
    let query = Query { name: text("MyHouse"), ..Query::new() };
    let response = respond(&mut store, &example(), Operation::Subscribe, &query, "ip", 7);
    let token = match response {
        Response::Subscribed(NameAndToken { name, token }) => {
            assert_eq!(name, "MyHouse");
            token
        }
        other => panic!("{:?}", other),
    };
    let record = info(&store, &token).unwrap();
    assert_eq!(record.remote_name, "myhouse.box.example.com.");
    assert_eq!(record.description, "MyHouse's server");
    assert_eq!(record.timestamp, 0);
}

#[test]
fn subscribe_takes_the_description_from_the_query() {
    let mut store = Store::new();
    let query = Query { name: text("myhouse"), desc: text("The attic"), ..Query::new() };
    let token = match respond(&mut store, &example(), Operation::Subscribe, &query, "ip", 7) {
        Response::Subscribed(told) => told.token,
        other => panic!("{:?}", other),
    };
    assert_eq!(info(&store, &token).unwrap().description, "The attic");
}

#[test]
fn subscribe_of_a_taken_name_is_unavailable() {
    let mut store = subscribed();
    let query = Query { name: text("myhouse"), ..Query::new() };
    assert_eq!(
        respond(&mut store, &example(), Operation::Subscribe, &query, "ip", 7),
        Response::UnavailableName
    );
}

#[test]
fn unsubscribe_answers_done_once() {
    let mut store = subscribed();
    let query = Query { token: text("t-1"), ..Query::new() };
    assert_eq!(
        respond(&mut store, &example(), Operation::Unsubscribe, &query, "ip", 7),
        Response::Done
    );
    assert_eq!(respond(&mut store, &example(), Operation::Unsubscribe, &query, "ip", 7), BAD_REQUEST);
}

#[test]
fn discovery_is_served_from_binding_to_revocation() {
    let mut store = subscribed();
    let config = example();
    let bind = Query { token: text("t-1"), disco: text("d-1"), ..Query::new() };
    let ask = Query { disco: text("d-1"), ..Query::new() };
    assert_eq!(respond(&mut store, &config, Operation::Discovery, &ask, "ip", 7), BAD_REQUEST);
    assert_eq!(respond(&mut store, &config, Operation::Adddiscovery, &bind, "ip", 7), Response::Done);
    assert_eq!(respond(&mut store, &config, Operation::Adddiscovery, &bind, "ip", 7), BAD_REQUEST);
    assert_eq!(
        respond(&mut store, &config, Operation::Discovery, &ask, "203.0.113.5", 7),
        Response::Found(vec![Discovered {
            href: "https://myhouse.box.example.com".to_string(),
            desc: "myhouse's server".to_string(),
        }])
    );
    let register = Query { token: text("t-1"), local_ip: text("10.0.0.2"), ..Query::new() };
    respond(&mut store, &config, Operation::Register, &register, "203.0.113.5", 7);
    let near = Response::Found(vec![Discovered {
        href: "https://local.myhouse.box.example.com".to_string(),
        desc: "myhouse's server".to_string(),
    }]);
    assert_eq!(respond(&mut store, &config, Operation::Discovery, &ask, "203.0.113.5", 8), near);
    assert_eq!(respond(&mut store, &config, Operation::Ping, &Query::new(), "203.0.113.5", 8), near);
    assert_eq!(
        respond(&mut store, &config, Operation::Revokediscovery, &bind, "ip", 9),
        Response::Done
    );
    assert_eq!(respond(&mut store, &config, Operation::Discovery, &ask, "203.0.113.5", 9), BAD_REQUEST);
}

#[test]
fn discovery_operations_need_their_parameters() {
    let mut store = subscribed();
    let config = example();
    let only_token = Query { token: text("t-1"), ..Query::new() };
    let only_disco = Query { disco: text("d-1"), ..Query::new() };
    assert_eq!(
        respond(&mut store, &config, Operation::Adddiscovery, &only_token, "ip", 7),
        BAD_REQUEST
    );
    assert_eq!(
        respond(&mut store, &config, Operation::Adddiscovery, &only_disco, "ip", 7),
        BAD_REQUEST
    );
    assert_eq!(
        respond(&mut store, &config, Operation::Revokediscovery, &only_token, "ip", 7),
        BAD_REQUEST
    );
    assert_eq!(
        respond(&mut store, &config, Operation::Revokediscovery, &only_disco, "ip", 7),
        BAD_REQUEST
    );
    assert_eq!(store.get_token_for_discovery("d-1").is_ok(), false);
}
