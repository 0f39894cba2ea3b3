//! The configuration of a server, and the bookkeeping of a benchmark.

use fabric_shim::bench::{
    calls_per_task, completed_calls, concurrent_id, count_failures, sequential_id,
};
use fabric_shim::server::{bind_error, require_chaincode_id, settings, DEFAULT_ADDRESS};
use fabric_shim::{Error, Server, DEFAULT_MAX_MESSAGE_SIZE};

fn some(text: &str) -> Option<String> {
    Some(text.to_string())
}

#[test]
fn the_first_variable_that_is_set_counts() {
    let all = settings(some("a"), some("b"), some("c"), some("d")).unwrap();
    assert_eq!(all, ("a".to_string(), "c".to_string()));
    let fallbacks = settings(None, some("b"), None, some("d")).unwrap();
    assert_eq!(fallbacks, ("b".to_string(), "d".to_string()));
    let least = settings(some("a"), None, None, None).unwrap();
    assert_eq!(least, ("a".to_string(), "0.0.0.0:7052".to_string()));
    assert_eq!(DEFAULT_ADDRESS, "0.0.0.0:7052");
    let missing = settings(None, None, some("c"), None).unwrap_err();
    assert!(matches!(missing, Error::Config(_)));
    assert_eq!(
        missing.message(),
        "configuration error: CHAINCODE_ID (or CORE_CHAINCODE_ID) is not set"
    );
    // A variable that is set to nothing is set.
    assert_eq!(settings(some(""), some("b"), None, None).unwrap().0, "");
}

#[test]
fn servers_take_the_first_address() {
    let server = Server::new("cc:1".to_string(), "host:1", Ok(vec![10, 20])).unwrap();
    assert_eq!(server.chaincode_id(), "cc:1");
    assert_eq!(*server.address(), 10);
    assert_eq!(server.message_limit(), DEFAULT_MAX_MESSAGE_SIZE);
    assert_eq!(DEFAULT_MAX_MESSAGE_SIZE, 100 * 1024 * 1024);
    let server = server.max_message_size(5);
    assert_eq!(server.message_limit(), 5);
    assert_eq!((server.chaincode_id(), *server.address()), ("cc:1", 10));

    let server = Server::from_env(None, some("id"), None, None, Ok(vec!['x'])).unwrap();
    assert_eq!((server.chaincode_id(), *server.address()), ("id", 'x'));
}

#[test]
fn bad_configurations_are_told() {
    let words = |r: Result<Server<u8>, Error>| r.err().unwrap().message();
    assert_eq!(
        words(Server::new(String::new(), "x", Ok(vec![]))),
        "configuration error: chaincode id must not be empty"
    );
    assert_eq!(
        words(Server::new("a".to_string(), "no\"where", Err("unknown host".to_string()))),
        "configuration error: invalid address \"no\\\"where\": unknown host"
    );
    assert_eq!(
        words(Server::new("a".to_string(), "x:1", Ok(vec![]))),
        "configuration error: address \"x:1\" resolved to nothing"
    );
    assert_eq!(
        words(Server::from_env(None, None, None, None, Ok(vec![1]))),
        "configuration error: CHAINCODE_ID (or CORE_CHAINCODE_ID) is not set"
    );
    assert_eq!(
        words(Server::from_env(some(""), None, None, None, Ok(vec![1]))),
        "configuration error: chaincode id must not be empty"
    );
    assert_eq!(
        words(Server::from_env(some("a"), None, None, None, Err("down".to_string()))),
        "configuration error: invalid address \"0.0.0.0:7052\": down"
    );
    assert!(require_chaincode_id("a").is_ok());
    assert!(require_chaincode_id("").is_err());
    assert_eq!(bind_error("1.2.3.4:5", "in use").message(), "transport error: bind 1.2.3.4:5: in use");
}

#[test]
fn calls_are_spread_over_tasks() {
    for total in [0usize, 1, 5, 20, 600, usize::MAX] {
        for tasks in [1usize, 2, 7, 20, usize::MAX] {
            assert_eq!(calls_per_task(total, tasks), total.div_ceil(tasks));
        }
    }
    assert_eq!(count_failures(&vec![Some(1), None, Some(0)], 5), 6);
    assert_eq!(count_failures(&vec![], 5), 0);
    assert_eq!(completed_calls(3, 5, 6), 9);
    assert_eq!(sequential_id("run", "cc", 12), "run-cc-seq-12");
    assert_eq!(concurrent_id("run", "cc", 3, 10), "run-cc-c3-10");
}
