use rusty_load_balancer::config::Config;
use rusty_load_balancer::error::LoadBalancerError;
use rusty_load_balancer::uri::decimal_string;
use rusty_load_balancer::worker::{distinct_addresses, Worker, WorkerStatus, WorkersList};

fn strings(list: &[&str]) -> Vec<String> {
    list.iter().map(|s| s.to_string()).collect()
}

#[test]
fn parse_deduplicates_addresses() {
    let list = WorkersList::parse(strings(&["a", "a", "b"])).unwrap();
    assert_eq!(list.len(), 2);
    assert!(!list.is_empty());
    assert_eq!(list.get(0).unwrap().uri().host(), "a");
    assert_eq!(list.get(1).unwrap().uri().host(), "b");
    assert!(list.get(2).is_none());
}

#[test]
fn parse_keeps_first_occurrence_order() {
    let list = WorkersList::parse(strings(&["b", "a", "b", "c", "a"])).unwrap();
    assert_eq!(list.len(), 3);
    assert_eq!(list.get(0).unwrap().uri().host(), "b");
    assert_eq!(list.get(1).unwrap().uri().host(), "a");
    assert_eq!(list.get(2).unwrap().uri().host(), "c");
}

#[test]
fn parse_fails_on_empty_list() {
    let r = WorkersList::parse(Vec::new());
    assert!(matches!(r, Err(LoadBalancerError::ConfigError(_))));
}

#[test]
fn parse_with_only_invalid_addresses_yields_empty_registry() {
    let list = WorkersList::parse(strings(&["", "http://", "/only/a/path"])).unwrap();
    assert_eq!(list.len(), 0);
    assert!(list.is_empty());
    assert!(list.get(0).is_none());
}

#[test]
fn parse_drops_invalid_and_keeps_valid() {
    let list = WorkersList::parse(strings(&["http://", "http://127.0.0.1:9001"])).unwrap();
    assert_eq!(list.len(), 1);
    assert_eq!(list.get(0).unwrap().uri().port(), 9001);
}

#[test]
fn worker_address_defaults() {
    let w = Worker::from_address("example.org".to_string()).unwrap();
    let uri = w.uri();
    assert_eq!(uri.scheme(), "http");
    assert_eq!(uri.host(), "example.org");
    assert_eq!(uri.port(), 80);
    assert_eq!(uri.authority(), "example.org:80");
    assert_eq!(uri.origin(), "http://example.org:80");
}

#[test]
fn worker_address_explicit_parts() {
    let w = Worker::from_address("https://10.0.0.7:8443/ignored".to_string()).unwrap();
    let uri = w.uri();
    assert_eq!(uri.scheme(), "https");
    assert_eq!(uri.host(), "10.0.0.7");
    assert_eq!(uri.port(), 8443);
    assert_eq!(uri.authority(), "10.0.0.7:8443");
    assert_eq!(uri.origin(), "https://10.0.0.7:8443");
}

#[test]
fn worker_from_invalid_address_fails() {
    let r = Worker::from_address("/no-host".to_string());
    match r {
        Err(LoadBalancerError::GenericError(m)) => assert_eq!(m, "Invalid URI /no-host"),
        _ => panic!("expected an invalid URI error"),
    }
    assert!(Worker::from_address("".to_string()).is_err());
}

#[test]
fn new_worker_is_pending_without_connections() {
    let mut w = Worker::from_address("http://127.0.0.1:9001".to_string()).unwrap();
    assert_eq!(w.status(), WorkerStatus::Pending);
    assert!(!w.accepts_connection());
    assert_eq!(w.connection_count(), 0);
    w.set_status(WorkerStatus::Up);
    assert!(w.accepts_connection());
    w.set_status(WorkerStatus::Down);
    assert!(!w.accepts_connection());
}

#[test]
fn ack_connection_once_per_client() {
    let mut w = Worker::from_address("http://127.0.0.1:9001".to_string()).unwrap();
    assert!(w.ack_connection("c1".to_string()).is_ok());
    assert_eq!(w.connection_count(), 1);
    assert!(w.ack_connection("c2".to_string()).is_ok());
    assert_eq!(w.connection_count(), 2);
    match w.ack_connection("c1".to_string()) {
        Err(LoadBalancerError::AlreadyConnected(c)) => assert_eq!(c, "c1"),
        _ => panic!("expected an already connected error"),
    }
    assert_eq!(w.connection_count(), 2);
}

#[test]
fn duplicate_keeps_worker() {
    let mut w = Worker::from_address("http://h:1".to_string()).unwrap();
    w.ack_connection("c".to_string()).unwrap();
    w.set_status(WorkerStatus::Failed);
    let d = w.duplicate();
    assert_eq!(d.uri().origin(), "http://h:1");
    assert_eq!(d.status(), WorkerStatus::Failed);
    assert_eq!(d.connection_count(), 1);
}

#[test]
fn decimal_string_writes_digits() {
    assert_eq!(decimal_string(0), "0");
    assert_eq!(decimal_string(7), "7");
    assert_eq!(decimal_string(80), "80");
    assert_eq!(decimal_string(1337), "1337");
    assert_eq!(decimal_string(65535), "65535");
}

#[test]
fn config_listens_on_every_interface() {
    let c = Config::new(1337, strings(&["http://127.0.0.1:9001"])).unwrap();
    assert_eq!(c.port, 1337);
    assert_eq!(c.address, "0.0.0.0");
    assert_eq!(c.worker_hosts.len(), 1);
}

#[test]
fn config_without_workers_fails() {
    assert!(matches!(Config::new(1337, Vec::new()), Err(LoadBalancerError::ConfigError(_))));
}

#[test]
fn distinct_addresses_drops_repeats() {
    assert_eq!(distinct_addresses(strings(&["a", "a", "b"])), strings(&["a", "b"]));
    assert_eq!(distinct_addresses(strings(&["b", "a", "b", "a"])), strings(&["b", "a"]));
    assert!(distinct_addresses(Vec::new()).is_empty());
}

#[test]
fn empty_list_error_message() {
    match WorkersList::parse(Vec::new()) {
        Err(LoadBalancerError::ConfigError(m)) => assert_eq!(m, "At least 1 worker must be specified."),
        _ => panic!("expected a config error"),
    }
    match Config::new(80, Vec::new()) {
        Err(LoadBalancerError::ConfigError(m)) => assert_eq!(m, "At least 1 worker must be specified."),
        _ => panic!("expected a config error"),
    }
}
