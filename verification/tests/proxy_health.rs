use deetbeam::proxy::config::ProxyConfig;
use deetbeam::proxy::health::{
    check_upstream_health, HealthAction, HealthEvent, HealthMonitor, ProbeAction, ProbeEvent,
};
use deetbeam::proxy::upstream::DeadUpstreams;

fn config(count: usize) -> ProxyConfig {
    let addresses = (0..count).map(|i| format!("10.0.0.{}:80", i)).collect();
    match ProxyConfig::new(addresses, 7, "/health".to_string(), 0) {
        Ok(config) => config,
        Err(_) => panic!("there are upstream servers"),
    }
}

fn tell(
    monitor: &mut HealthMonitor,
    config: &ProxyConfig,
    dead: &mut DeadUpstreams,
    event: HealthEvent,
) -> String {
    assert!(monitor.expects(event));
    match monitor.active_health_check(config, dead, event) {
        HealthAction::Sleep(seconds) => format!("sleep {}", seconds),
        HealthAction::Probe { index, address, path } => {
            format!("probe {} {} {}", index, address, path)
        }
    }
}

#[test]
fn rounds_probe_every_server_in_order() {
    let config = config(3);
    let mut dead = DeadUpstreams::new();
    let mut monitor = HealthMonitor::new();
    assert_eq!(tell(&mut monitor, &config, &mut dead, HealthEvent::Started), "sleep 7");
    for _ in 0..2 {
        let woke = tell(&mut monitor, &config, &mut dead, HealthEvent::Woke);
        assert_eq!(woke, "probe 0 10.0.0.0:80 /health");
        let first = tell(&mut monitor, &config, &mut dead, HealthEvent::Checked(true));
        assert_eq!(first, "probe 1 10.0.0.1:80 /health");
        let second = tell(&mut monitor, &config, &mut dead, HealthEvent::Checked(false));
        assert_eq!(second, "probe 2 10.0.0.2:80 /health");
        let third = tell(&mut monitor, &config, &mut dead, HealthEvent::Checked(true));
        assert_eq!(third, "sleep 7");
    }
    assert!(!monitor.expects(HealthEvent::Checked(true)));
}

#[test]
fn after_a_round_exactly_the_unhealthy_are_dead() {
    let config = config(4);
    for before in 0..16usize {
        for verdicts in 0..16usize {
            let mut dead = DeadUpstreams::new();
            for index in 0..4 {
                if before & (1 << index) != 0 {
                    dead.insert(index);
                }
            }
            let mut monitor = HealthMonitor::new();
            tell(&mut monitor, &config, &mut dead, HealthEvent::Started);
            tell(&mut monitor, &config, &mut dead, HealthEvent::Woke);
            for index in 0..4 {
                let healthy = verdicts & (1 << index) != 0;
                tell(&mut monitor, &config, &mut dead, HealthEvent::Checked(healthy));
                assert_eq!(dead.contains(index), !healthy);
            }
            for index in 0..4 {
                assert_eq!(dead.contains(index), verdicts & (1 << index) == 0);
            }
        }
    }
}

#[test]
fn a_probe_asks_for_the_path() {
    match check_upstream_health("10.0.0.1:80", "/health", ProbeEvent::Connected(true)) {
        ProbeAction::Send(request) => {
            assert_eq!(request.method, "GET");
            assert_eq!(request.uri, "/health");
            assert_eq!(request.headers, vec![("host".to_string(), b"10.0.0.1:80".to_vec())]);
            assert!(request.body.is_empty());
        }
        _ => panic!("the request can be made"),
    }
}

#[test]
fn the_uri_is_what_http_makes_of_the_path() {
    for (path, uri) in [
        ("/", "/"),
        ("/a-b/c_d.e", "/a-b/c_d.e"),
        ("/a?b=c", "/a?b=c"),
        ("/a#b", "/a"),
        ("http://h:1/x", "http://h:1/x"),
        ("http://h", "http://h/"),
    ] {
        match check_upstream_health("h", path, ProbeEvent::Connected(true)) {
            ProbeAction::Send(request) => assert_eq!(request.uri, uri),
            _ => panic!("{} is a URI", path),
        }
    }
}

#[test]
fn settings_that_cannot_stand_in_a_request_are_refused() {
    for (host, path) in [("h", ""), ("h", "/a b"), ("h", "/\u{e9}"), ("a\nb", "/"), ("\u{7f}", "/")] {
        let next = check_upstream_health(host, path, ProbeEvent::Connected(true));
        assert!(matches!(next, ProbeAction::Refused(_)), "{:?} {:?}", host, path);
    }
    // A tab and characters beyond ASCII may stand in the value of a header.
    let next = check_upstream_health("a\t\u{e9}", "/", ProbeEvent::Connected(true));
    match next {
        ProbeAction::Send(request) => {
            assert_eq!(request.headers[0].1, "a\t\u{e9}".as_bytes().to_vec());
        }
        _ => panic!("the host can be the value of a header"),
    }
    // A path may be as long as a URI may be, and no longer.
    let longest = format!("/{}", "a".repeat(65533));
    let next = check_upstream_health("h", &longest, ProbeEvent::Connected(true));
    assert!(matches!(next, ProbeAction::Send(_)));
    let next = check_upstream_health("h", &format!("{}a", longest), ProbeEvent::Connected(true));
    assert!(matches!(next, ProbeAction::Refused(_)));
}

#[test]
fn a_server_is_healthy_when_it_answers_ok() {
    let step = |event| check_upstream_health("h", "/", event);
    assert!(matches!(step(ProbeEvent::Connected(false)), ProbeAction::Verdict(false)));
    assert!(matches!(step(ProbeEvent::Sent(false)), ProbeAction::Verdict(false)));
    match step(ProbeEvent::Sent(true)) {
        ProbeAction::Receive { method } => assert_eq!(method, "GET"),
        _ => panic!("the response is to be read"),
    }
    assert!(matches!(step(ProbeEvent::Received(None)), ProbeAction::Verdict(false)));
    assert!(matches!(step(ProbeEvent::Received(Some(200))), ProbeAction::Verdict(true)));
    for status in [100, 199, 201, 204, 301, 404, 500, 503] {
        assert!(matches!(step(ProbeEvent::Received(Some(status))), ProbeAction::Verdict(false)));
    }
    assert_eq!(http::StatusCode::OK.as_u16(), 200);
}
