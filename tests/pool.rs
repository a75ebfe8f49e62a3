use balancer::forward::{begin_request, end_request};
use balancer::pool::{Policy, PoolError, ServerPool};

fn addrs(list: &[&str]) -> Vec<String> {
    list.iter().map(|s| s.to_string()).collect()
}

fn pool(list: &[&str], policy: Policy) -> ServerPool {
    match ServerPool::with_policy(addrs(list), policy) {
        Ok(p) => p,
        Err(e) => panic!("pool not built: {:?}", e),
    }
}

fn total(p: &ServerPool) -> usize {
    (0..p.len()).map(|i| p.connections(i)).sum()
}

#[test]
fn empty_address_list_is_rejected() {
    assert!(matches!(ServerPool::new(Vec::new()), Err(PoolError::ConfigurationError)));
    assert!(matches!(
        ServerPool::with_policy(Vec::new(), Policy::RoundRobin),
        Err(PoolError::ConfigurationError)
    ));
}

#[test]
fn pool_has_one_backend_per_address() {
    let p = pool(&["a:1", "b:2", "c:3"], Policy::RoundRobin);
    assert_eq!(p.len(), 3);
    assert_eq!(p.address(0), "a:1");
    assert_eq!(p.address(1), "b:2");
    assert_eq!(p.address(2), "c:3");
    for i in 0..3 {
        assert_eq!(p.connections(i), 0);
    }
    assert_eq!(p.policy(), Policy::RoundRobin);
    let single = pool(&["only:80"], Policy::LeastConnections);
    assert_eq!(single.len(), 1);
}

#[test]
fn new_uses_least_connections() {
    match ServerPool::new(addrs(&["localhost:8081", "localhost:8082"])) {
        Ok(p) => {
            assert_eq!(p.policy(), Policy::LeastConnections);
            assert_eq!(p.len(), 2);
        }
        Err(e) => panic!("pool not built: {:?}", e),
    }
}

#[test]
fn round_robin_visits_in_address_order() {
    let mut p = pool(&["a:1", "b:2", "c:3"], Policy::RoundRobin);
    let picked: Vec<String> = (0..7).map(|_| {
        let i = p.select_round_robin();
        p.address(i).to_string()
    }).collect();
    assert_eq!(picked, vec!["a:1", "b:2", "c:3", "a:1", "b:2", "c:3", "a:1"]);
}

#[test]
fn round_robin_through_next_server_leaves_counts() {
    let mut p = pool(&["a:1", "b:2"], Policy::RoundRobin);
    assert_eq!(p.next_server(), 0);
    assert_eq!(p.next_server(), 1);
    assert_eq!(p.next_server(), 0);
    assert_eq!(begin_request(&mut p), 1);
    assert_eq!(total(&p), 0);
    end_request(&mut p, 1);
    assert_eq!(total(&p), 0);
}

#[test]
fn round_robin_single_backend_repeats() {
    let mut p = pool(&["solo:1"], Policy::RoundRobin);
    for _ in 0..4 {
        assert_eq!(p.select_round_robin(), 0);
    }
}

#[test]
fn least_loaded_tie_goes_to_first() {
    let p = pool(&["a", "b", "c"], Policy::LeastConnections);
    assert_eq!(p.select_least_loaded(), 0);
    let mut q = pool(&["a", "b", "c"], Policy::LeastConnections);
    for i in 0..3 {
        q.record_start(i);
    }
    assert_eq!(q.select_least_loaded(), 0);
}

#[test]
fn least_loaded_skips_busy_backend() {
    let mut p = pool(&["a", "b", "c"], Policy::LeastConnections);
    p.record_start(1);
    assert_eq!(p.connections(1), 1);
    assert_eq!(p.select_least_loaded(), 0);
    let mut q = pool(&["a", "b", "c"], Policy::LeastConnections);
    q.record_start(0);
    assert_eq!(q.select_least_loaded(), 1);
}

#[test]
fn least_loaded_picks_minimum() {
    let mut p = pool(&["a", "b", "c", "d"], Policy::LeastConnections);
    for _ in 0..3 {
        p.record_start(0);
    }
    p.record_start(1);
    p.record_start(1);
    p.record_start(2);
    p.record_start(3);
    p.record_start(3);
    assert_eq!(p.select_least_loaded(), 2);
}

#[test]
fn begin_request_spreads_load() {
    let mut p = pool(&["a", "b", "c"], Policy::LeastConnections);
    let picks: Vec<usize> = (0..5).map(|_| begin_request(&mut p)).collect();
    assert_eq!(picks, vec![0, 1, 2, 0, 1]);
    assert_eq!(p.connections(0), 2);
    assert_eq!(p.connections(1), 2);
    assert_eq!(p.connections(2), 1);
    assert_eq!(total(&p), 5);
}

#[test]
fn start_and_end_balance() {
    let mut p = pool(&["a", "b", "c"], Policy::LeastConnections);
    let k = 9;
    let picks: Vec<usize> = (0..k).map(|_| begin_request(&mut p)).collect();
    assert_eq!(total(&p), k);
    for b in picks {
        end_request(&mut p, b);
    }
    assert_eq!(total(&p), 0);
}

#[test]
fn record_end_stays_at_zero() {
    let mut p = pool(&["a", "b"], Policy::LeastConnections);
    p.record_end(0);
    assert_eq!(p.connections(0), 0);
    p.record_start(1);
    p.record_end(1);
    assert_eq!(p.connections(1), 0);
}

#[test]
fn headroom_reflects_counters() {
    let mut p = pool(&["a"], Policy::LeastConnections);
    assert!(p.has_headroom());
    p.record_start(0);
    assert!(p.has_headroom());
}
