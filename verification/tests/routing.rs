use upstream_pool::backend::Backend;
use upstream_pool::pool::{Pool, PoolError};
use upstream_pool::routing::{decide, RouteError, UpstreamTarget, LB};
use upstream_pool::selector::Selection;

fn addresses(list: &[&str]) -> Vec<String> {
    list.iter().map(|s| s.to_string()).collect()
}

fn balancer(list: &[&str]) -> LB {
    LB::new(Pool::register(&addresses(list)).unwrap())
}

fn target(address: &str, tls: bool) -> Result<UpstreamTarget, RouteError> {
    Ok(UpstreamTarget { target_address: address.to_string(), use_tls_upstream: tls })
}

#[test]
fn register_rejects_an_empty_list() {
    assert_eq!(Pool::register(&[]).err(), Some(PoolError::EmptyPool));
}

#[test]
fn register_rejects_text_that_is_no_address() {
    let result = Pool::register(&addresses(&["not-an-address"]));
    assert_eq!(result.err(), Some(PoolError::InvalidAddress));
}

#[test]
fn three_backends_rotate_in_order_with_tls_on_the_secure_port() {
    let mut lb = balancer(&["10.0.0.1:80", "10.0.0.2:443", "10.0.0.3:80"]);
    assert_eq!(lb.route(), target("10.0.0.1:80", false));
    assert_eq!(lb.route(), target("10.0.0.2:443", true));
    assert_eq!(lb.route(), target("10.0.0.3:80", false));
    assert_eq!(lb.route(), target("10.0.0.1:80", false));
}

#[test]
fn an_unhealthy_backend_is_skipped_until_it_recovers() {
    let mut lb = balancer(&["10.0.0.1:80", "10.0.0.2:80"]);
    lb.set_health(1, false);
    for _ in 0..5 {
        assert_eq!(lb.route(), target("10.0.0.1:80", false));
    }
    lb.set_health(1, true);
    let mut seen_a = 0;
    let mut seen_b = 0;
    for _ in 0..4 {
        match lb.route().unwrap().target_address.as_str() {
            "10.0.0.1:80" => seen_a += 1,
            "10.0.0.2:80" => seen_b += 1,
            other => panic!("unexpected target {other}"),
        }
    }
    assert_eq!((seen_a, seen_b), (2, 2));
}

#[test]
fn route_fails_when_every_backend_is_unhealthy() {
    let mut lb = balancer(&["10.0.0.1:80", "10.0.0.2:443"]);
    lb.set_health(0, false);
    lb.set_health(1, false);
    assert_eq!(lb.route(), Err(RouteError::NoHealthyBackend));
    assert_eq!(lb.cursor(), 0);
}

#[test]
fn decide_turns_a_selection_into_a_target() {
    assert_eq!(
        decide(Selection::Backend(Backend::new("[::1]:443").unwrap())),
        target("[::1]:443", true)
    );
    assert_eq!(
        decide(Selection::Backend(Backend::new("10.1.2.3:4430").unwrap())),
        target("10.1.2.3:4430", false)
    );
    assert_eq!(decide(Selection::Exhausted), Err(RouteError::NoHealthyBackend));
}

#[test]
fn route_leaves_the_pool_as_it_is() {
    let mut lb = balancer(&["a:1", "b:2", "c:3"]);
    lb.set_health(1, false);
    for _ in 0..10 {
        lb.route().unwrap();
    }
    assert_eq!(lb.pool().health(), &[true, false, true]);
    assert_eq!(lb.pool().len(), 3);
    assert_eq!(lb.cursor(), 10);
}

#[test]
fn route_visits_every_backend_once_in_each_round() {
    let names = ["a:1", "b:2", "c:3", "d:443", "e:5", "f:6", "g:7"];
    let mut lb = balancer(&names);
    for _ in 0..3 {
        let mut seen: Vec<String> = Vec::new();
        for _ in 0..names.len() {
            seen.push(lb.route().unwrap().target_address);
        }
        assert_eq!(seen, names);
    }
}
