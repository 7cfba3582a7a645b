use rusty_load_balancer::selector::{Index, NextWorkerSelector, WorkerSelectionStrategy};
use rusty_load_balancer::worker::WorkersList;

fn registry(list: &[&str]) -> WorkersList {
    WorkersList::parse(list.iter().map(|s| s.to_string()).collect()).unwrap()
}

#[test]
fn selecting_from_empty_registry_gives_none() {
    let empty = registry(&["/no-host"]);
    let mut selector = NextWorkerSelector::new();
    for _ in 0..5 {
        assert!(selector.select_next_worker(&empty).is_none());
    }
}

#[test]
fn round_robin_starts_after_the_first_worker() {
    let list = registry(&["a", "b", "c"]);
    let mut selector = NextWorkerSelector::new();
    let hosts: Vec<String> = (0..7)
        .map(|_| selector.select_next_worker(&list).unwrap().uri().host().to_string())
        .collect();
    assert_eq!(hosts, vec!["b", "c", "a", "b", "c", "a", "b"]);
}

#[test]
fn round_robin_visits_each_worker_once_per_cycle() {
    let list = registry(&["w0", "w1", "w2", "w3", "w4"]);
    let mut selector = NextWorkerSelector::new();
    for _ in 0..3 {
        let mut seen: Vec<String> = (0..list.len())
            .map(|_| selector.select_next_worker(&list).unwrap().uri().host().to_string())
            .collect();
        seen.sort();
        assert_eq!(seen, vec!["w0", "w1", "w2", "w3", "w4"]);
    }
}

#[test]
fn single_worker_is_always_selected() {
    let list = registry(&["only"]);
    let mut selector = NextWorkerSelector::new();
    for _ in 0..3 {
        assert_eq!(selector.select_next_worker(&list).unwrap().uri().host(), "only");
    }
}

#[test]
fn changing_strategy_keeps_cursor() {
    let list = registry(&["a", "b", "c"]);
    let mut selector = NextWorkerSelector::new();
    assert_eq!(selector.select_next_worker(&list).unwrap().uri().host(), "b");
    selector.set_strategy(WorkerSelectionStrategy::RoundRobin);
    assert_eq!(selector.select_next_worker(&list).unwrap().uri().host(), "c");
}

#[test]
fn index_set_replaces_value() {
    let mut i = Index::default();
    assert_eq!(i.n, 0);
    i.set(4);
    assert_eq!(i.n, 4);
}
