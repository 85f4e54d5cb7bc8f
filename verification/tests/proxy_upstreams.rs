use deetbeam::proxy::config::ProxyConfig;
use deetbeam::proxy::upstream::{Attempt, ConnectError, DeadUpstreams, UpstreamSearch};
use rand::rngs::StdRng;
use rand::SeedableRng;

fn config(count: usize) -> ProxyConfig {
    let addresses = (0..count).map(|i| format!("10.0.0.{}:80", i)).collect();
    match ProxyConfig::new(addresses, 10, "/".to_string(), 0) {
        Ok(config) => config,
        Err(_) => panic!("there are upstream servers"),
    }
}

fn new_search() -> UpstreamSearch<String> {
    match UpstreamSearch::new() {
        Ok(search) => search,
        Err(error) => panic!("no seed: {}", error),
    }
}

fn dead(indices: &[usize]) -> DeadUpstreams {
    let mut dead = DeadUpstreams::new();
    for index in indices {
        dead.insert(*index);
    }
    dead
}

#[test]
fn settings_are_kept() {
    let addresses = vec!["a:1".to_string(), "b:2".to_string()];
    match ProxyConfig::new(addresses, 30, "/health".to_string(), 5) {
        Ok(config) => {
            assert_eq!(config.upstream_count(), 2);
            assert_eq!(config.upstream_address(0), "a:1");
            assert_eq!(config.upstream_address(1), "b:2");
            assert_eq!(config.active_health_check_interval(), 30);
            assert_eq!(config.active_health_check_path(), "/health");
            assert_eq!(config.max_requests_per_minute(), 5);
        }
        Err(_) => panic!("there are upstream servers"),
    }
}

#[test]
fn a_proxy_needs_an_upstream_server() {
    match ProxyConfig::new(vec![], 10, "/".to_string(), 0) {
        Ok(_) => panic!("there is no upstream server"),
        Err(error) => {
            assert_eq!(
                error.message,
                "At least one upstream server must be specified using the --upstream option."
            );
            assert_eq!(error.code, 1);
        }
    }
}

#[test]
fn candidates_are_neither_dead_nor_tried() {
    let mut search = new_search();
    assert_eq!(search.candidates(5, &dead(&[])), vec![0, 1, 2, 3, 4]);
    assert_eq!(search.candidates(5, &dead(&[1, 4, 9])), vec![0, 2, 3]);
    match search.attempt(&config(5), &vec![0, 2, 3], 1) {
        Attempt::Connect { index, address } => {
            assert_eq!(index, 2);
            assert_eq!(address, "10.0.0.2:80");
        }
        Attempt::GiveUp(_) => panic!("a candidate was drawn"),
    }
    assert_eq!(search.candidates(5, &dead(&[1, 4])), vec![0, 3]);
    assert!(search.candidates(0, &dead(&[])).is_empty());
}

#[test]
fn a_search_tries_each_server_once_and_then_gives_up() {
    let config = config(4);
    let mut dead = dead(&[2]);
    let mut search = new_search();
    let mut tried = Vec::new();
    let error = loop {
        match search.connect_to_upstream(&config, &dead) {
            Attempt::Connect { index, address } => {
                assert_eq!(address, format!("10.0.0.{}:80", index));
                tried.push(index);
                search.connect_failed(&mut dead, index, format!("refused by {}", index));
                assert!(dead.contains(index));
            }
            Attempt::GiveUp(error) => break error,
        }
    };
    let last = tried[tried.len() - 1];
    tried.sort();
    assert_eq!(tried, vec![0, 1, 3]);
    for index in 0..4 {
        assert!(dead.contains(index));
    }
    match error {
        ConnectError::Last(text) => assert_eq!(text, format!("refused by {}", last)),
        ConnectError::AllDead { .. } => panic!("there were attempts"),
    }
}

#[test]
fn a_search_without_candidates_says_that_all_are_dead() {
    let mut search = new_search();
    match search.connect_to_upstream(&config(2), &dead(&[0, 1])) {
        Attempt::GiveUp(ConnectError::AllDead { message }) => {
            assert_eq!(message, "all upstream servers are dead");
        }
        _ => panic!("no server is left"),
    }
}

#[test]
fn a_search_may_be_helped_by_a_recovery() {
    let config = config(2);
    let mut dead = dead(&[0, 1]);
    dead.remove(1);
    let mut search = new_search();
    match search.connect_to_upstream(&config, &dead) {
        Attempt::Connect { index, .. } => assert_eq!(index, 1),
        Attempt::GiveUp(_) => panic!("one server is alive"),
    }
    // A server that this search has tried is not tried again, even if it is alive.
    assert!(matches!(search.connect_to_upstream(&config, &dead), Attempt::GiveUp(_)));
}

#[test]
fn a_search_with_a_given_generator_starts_afresh() {
    let mut search: UpstreamSearch<String> = UpstreamSearch::with_rng(StdRng::seed_from_u64(1));
    assert_eq!(search.candidates(3, &dead(&[])), vec![0, 1, 2]);
    assert!(matches!(
        search.give_up(),
        Attempt::GiveUp(ConnectError::AllDead { .. })
    ));
}

#[test]
fn generators_are_seeded_apart() {
    let config = config(64);
    let dead = dead(&[]);
    let draws = || -> Vec<usize> {
        let mut search = new_search();
        let mut drawn = Vec::new();
        while let Attempt::Connect { index, .. } = search.connect_to_upstream(&config, &dead) {
            drawn.push(index);
        }
        drawn
    };
    let first = draws();
    let second = draws();
    assert_eq!(first.len(), 64);
    assert_eq!(second.len(), 64);
    assert_ne!(first, second);
}

#[test]
fn every_server_is_drawn_sooner_or_later() {
    let config = config(3);
    let dead = dead(&[]);
    let mut drawn = [0usize; 3];
    for _ in 0..600 {
        let mut search = new_search();
        match search.connect_to_upstream(&config, &dead) {
            Attempt::Connect { index, .. } => drawn[index] += 1,
            Attempt::GiveUp(_) => panic!("all servers are alive"),
        }
    }
    assert!(drawn.iter().all(|times| *times > 0), "{:?}", drawn);
}
