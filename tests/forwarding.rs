use rusty_load_balancer::load_balancer::{ForwardAction, InboundRequest, LoadBalancer};
use rusty_load_balancer::proxy::{
    error_response, no_workers_response, relay_headers, upstream_headers, upstream_target, Header,
    SERVICE_UNAVAILABLE,
};
use rusty_load_balancer::selector::WorkerSelectionStrategy;
use rusty_load_balancer::worker::{Worker, WorkersList};

fn header(name: &str, value: &str) -> Header {
    Header { name: name.to_string(), value: value.as_bytes().to_vec() }
}

fn pairs(headers: &[Header]) -> Vec<(String, Vec<u8>)> {
    headers.iter().map(|h| (h.name.clone(), h.value.clone())).collect()
}

fn balancer(list: &[&str]) -> LoadBalancer {
    let workers = WorkersList::parse(list.iter().map(|s| s.to_string()).collect()).unwrap();
    LoadBalancer::new(workers).unwrap()
}

fn request(pq: Option<&str>, headers: Vec<Header>) -> InboundRequest {
    InboundRequest { path_and_query: pq.map(|s| s.to_string()), headers }
}

#[test]
fn two_requests_go_to_the_two_workers_in_turn() {
    let mut lb = balancer(&["http://127.0.0.1:9001", "http://127.0.0.1:9002"]);
    match lb.forward_request(&request(Some("/first?x=1"), Vec::new())) {
        ForwardAction::Forward(u) => {
            assert_eq!(u.target, "http://127.0.0.1:9002/first?x=1");
            assert_eq!(u.host, "127.0.0.1");
            assert_eq!(u.port, 9002);
            assert_eq!(pairs(&u.headers), pairs(&[header("host", "127.0.0.1:9002")]));
        }
        ForwardAction::Respond(_) => panic!("expected a forward"),
    }
    match lb.forward_request(&request(Some("/second"), Vec::new())) {
        ForwardAction::Forward(u) => {
            assert_eq!(u.target, "http://127.0.0.1:9001/second");
            assert_eq!(u.port, 9001);
        }
        ForwardAction::Respond(_) => panic!("expected a forward"),
    }
}

#[test]
fn no_workers_gives_503_without_upstream() {
    let mut lb = balancer(&["/no-host", ""]);
    match lb.forward_request(&request(Some("/"), Vec::new())) {
        ForwardAction::Respond(r) => {
            assert_eq!(r.status, 503);
            assert_eq!(pairs(&r.headers), pairs(&[header("x-proxied-from", "rusty-load-balancer")]));
            assert_eq!(r.body, "value");
        }
        ForwardAction::Forward(_) => panic!("expected a 503"),
    }
    assert!(lb.get_worker().is_none());
}

#[test]
fn upstream_failure_gives_503_with_message() {
    let r = error_response("TCP error: Connection refused (os error 111)");
    assert_eq!(r.status, SERVICE_UNAVAILABLE);
    assert_eq!(r.status, 503);
    assert_eq!(pairs(&r.headers), pairs(&[header("x-proxied-from", "rusty-load-balancer")]));
    assert_eq!(r.body, "Unexpected error: TCP error: Connection refused (os error 111)");
}

#[test]
fn no_workers_response_is_marked() {
    let r = no_workers_response();
    assert_eq!(r.status, 503);
    assert_eq!(r.headers.len(), 1);
    assert_eq!(r.headers[0].name, "x-proxied-from");
    assert_eq!(r.headers[0].value, b"rusty-load-balancer".to_vec());
}

#[test]
fn inbound_headers_but_host_are_forwarded() {
    let inbound = vec![
        header("accept", "*/*"),
        header("host", "proxy.local:1337"),
        header("x-trace", "abc"),
        header("x-trace", "def"),
    ];
    let out = upstream_headers(&inbound, "10.0.0.1:9001");
    assert_eq!(
        pairs(&out),
        pairs(&[
            header("accept", "*/*"),
            header("x-trace", "abc"),
            header("x-trace", "def"),
            header("host", "10.0.0.1:9001"),
        ])
    );
}

#[test]
fn forwarded_request_replaces_host() {
    let mut lb = balancer(&["http://10.1.1.1:7000"]);
    let req = request(
        Some("/p"),
        vec![header("host", "client.example"), header("cookie", "k=v")],
    );
    match lb.forward_request(&req) {
        ForwardAction::Forward(u) => {
            assert_eq!(
                pairs(&u.headers),
                pairs(&[header("cookie", "k=v"), header("host", "10.1.1.1:7000")])
            );
        }
        ForwardAction::Respond(_) => panic!("expected a forward"),
    }
}

#[test]
fn upstream_headers_are_relayed_with_marker() {
    let upstream = vec![header("content-type", "text/plain"), header("set-cookie", "a=1")];
    let out = relay_headers(upstream);
    assert_eq!(
        pairs(&out),
        pairs(&[
            header("content-type", "text/plain"),
            header("set-cookie", "a=1"),
            header("x-proxied-from", "rusty-load-balancer"),
        ])
    );
}

#[test]
fn target_without_path_is_the_origin() {
    let w = Worker::from_address("worker.internal".to_string()).unwrap();
    assert_eq!(upstream_target(w.uri(), &None), "http://worker.internal:80");
    assert_eq!(
        upstream_target(w.uri(), &Some("/a/b?c=d".to_string())),
        "http://worker.internal:80/a/b?c=d"
    );
}

#[test]
fn get_worker_follows_round_robin() {
    let mut lb = balancer(&["a", "b"]);
    lb.update_selection_strategy(WorkerSelectionStrategy::RoundRobin);
    assert_eq!(lb.get_worker().unwrap().uri().host(), "b");
    assert_eq!(lb.get_worker().unwrap().uri().host(), "a");
    assert_eq!(lb.get_worker().unwrap().uri().host(), "b");
}
