use upstream_pool::pool::Pool;
use upstream_pool::prober::{
    ProbeOutcome, ProbeResult, ProbeSchedule, Prober, ProberAction, ProberEvent,
};
use upstream_pool::routing::{RouteError, LB};

fn prober(interval_ms: u64, timeout_ms: u64, backends: usize) -> Prober {
    Prober::new(ProbeSchedule::new(interval_ms, timeout_ms).unwrap(), backends)
}

#[test]
fn a_schedule_needs_a_timeout_shorter_than_its_interval() {
    let schedule = ProbeSchedule::new(1000, 250).unwrap();
    assert_eq!(schedule.interval_ms(), 1000);
    assert_eq!(schedule.timeout_ms(), 250);
    assert!(ProbeSchedule::new(1000, 999).is_some());
    assert_eq!(ProbeSchedule::new(1000, 1000), None);
    assert_eq!(ProbeSchedule::new(1000, 1001), None);
    assert_eq!(ProbeSchedule::new(0, 0), None);
    assert!(ProbeSchedule::new(1, 0).is_some());
}

#[test]
fn only_a_backend_that_answered_in_time_counts_as_a_success() {
    assert_eq!(
        ProbeResult::observed(2, ProbeOutcome::Reachable, 17),
        ProbeResult { backend: 2, success: true, timestamp_ms: 17 }
    );
    assert_eq!(
        ProbeResult::observed(0, ProbeOutcome::Unreachable, 18),
        ProbeResult { backend: 0, success: false, timestamp_ms: 18 }
    );
    assert_eq!(
        ProbeResult::observed(1, ProbeOutcome::TimedOut, 19),
        ProbeResult { backend: 1, success: false, timestamp_ms: 19 }
    );
}

#[test]
fn the_first_round_is_due_at_once() {
    let mut prober = prober(1000, 400, 3);
    assert!(prober.is_running());
    assert_eq!(prober.next_round_ms(), 0);
    assert_eq!(
        prober.step(ProberEvent::Wake { now_ms: 0 }),
        ProberAction::ProbeAll { backends: 3, timeout_ms: 400, next_wake_ms: 1000 }
    );
    assert_eq!(prober.next_round_ms(), 1000);
}

#[test]
fn rounds_follow_one_interval_after_the_wake_up_that_started_the_last() {
    let mut prober = prober(1000, 400, 2);
    assert_eq!(
        prober.step(ProberEvent::Wake { now_ms: 5 }),
        ProberAction::ProbeAll { backends: 2, timeout_ms: 400, next_wake_ms: 1005 }
    );
    assert_eq!(
        prober.step(ProberEvent::Wake { now_ms: 600 }),
        ProberAction::Sleep { until_ms: 1005 }
    );
    assert_eq!(
        prober.step(ProberEvent::Wake { now_ms: 1004 }),
        ProberAction::Sleep { until_ms: 1005 }
    );
    assert_eq!(
        prober.step(ProberEvent::Wake { now_ms: 1005 }),
        ProberAction::ProbeAll { backends: 2, timeout_ms: 400, next_wake_ms: 2005 }
    );
    assert_eq!(
        prober.step(ProberEvent::Wake { now_ms: 3500 }),
        ProberAction::ProbeAll { backends: 2, timeout_ms: 400, next_wake_ms: 4500 }
    );
}

#[test]
fn the_next_round_stops_at_the_end_of_the_clock() {
    let mut prober = prober(1000, 400, 1);
    assert_eq!(
        prober.step(ProberEvent::Wake { now_ms: u64::MAX - 1000 }),
        ProberAction::ProbeAll { backends: 1, timeout_ms: 400, next_wake_ms: u64::MAX }
    );
    let mut prober = self::prober(1000, 400, 1);
    assert_eq!(
        prober.step(ProberEvent::Wake { now_ms: u64::MAX - 999 }),
        ProberAction::ProbeAll { backends: 1, timeout_ms: 400, next_wake_ms: u64::MAX }
    );
    assert_eq!(
        prober.step(ProberEvent::Wake { now_ms: u64::MAX }),
        ProberAction::ProbeAll { backends: 1, timeout_ms: 400, next_wake_ms: u64::MAX }
    );
}

#[test]
fn a_probe_result_becomes_the_health_of_its_backend() {
    let mut prober = prober(1000, 400, 3);
    let failed = ProbeResult::observed(1, ProbeOutcome::TimedOut, 10);
    assert_eq!(
        prober.step(ProberEvent::Probed(failed)),
        ProberAction::SetHealth { backend: 1, healthy: false }
    );
    let recovered = ProbeResult::observed(1, ProbeOutcome::Reachable, 20);
    assert_eq!(
        prober.step(ProberEvent::Probed(recovered)),
        ProberAction::SetHealth { backend: 1, healthy: true }
    );
    assert!(prober.is_running());
}

#[test]
fn a_result_for_a_backend_that_is_not_probed_is_dropped() {
    let mut prober = prober(1000, 400, 3);
    let stray = ProbeResult::observed(3, ProbeOutcome::Reachable, 10);
    assert_eq!(prober.step(ProberEvent::Probed(stray)), ProberAction::Nothing);
}

#[test]
fn failures_do_not_stop_the_prober() {
    let mut prober = prober(1000, 400, 2);
    for round in 0..50u64 {
        assert!(matches!(
            prober.step(ProberEvent::Wake { now_ms: round * 1000 }),
            ProberAction::ProbeAll { .. }
        ));
        for backend in 0..2 {
            let result = ProbeResult::observed(backend, ProbeOutcome::Unreachable, round * 1000);
            assert_eq!(
                prober.step(ProberEvent::Probed(result)),
                ProberAction::SetHealth { backend, healthy: false }
            );
        }
    }
    assert!(prober.is_running());
}

#[test]
fn a_shutdown_stops_the_prober_for_good() {
    let mut prober = prober(1000, 400, 2);
    assert_eq!(prober.step(ProberEvent::Shutdown), ProberAction::Stop);
    assert!(!prober.is_running());
    assert_eq!(prober.step(ProberEvent::Wake { now_ms: 5000 }), ProberAction::Nothing);
    let late = ProbeResult::observed(0, ProbeOutcome::Unreachable, 5001);
    assert_eq!(prober.step(ProberEvent::Probed(late)), ProberAction::Nothing);
    assert_eq!(prober.step(ProberEvent::Shutdown), ProberAction::Nothing);
    assert_eq!(prober.next_round_ms(), 0);
}

#[test]
fn start_health_checks_probes_every_backend_of_the_pool() {
    let addresses: Vec<String> = ["a:1", "b:2", "c:3"].iter().map(|s| s.to_string()).collect();
    let pool = Pool::register(&addresses).unwrap();
    assert!(pool.start_health_checks(1000, 1000).is_none());
    assert!(pool.start_health_checks(1000, 2000).is_none());
    let mut prober = pool.start_health_checks(1000, 300).unwrap();
    assert_eq!(
        prober.step(ProberEvent::Wake { now_ms: 42 }),
        ProberAction::ProbeAll { backends: 3, timeout_ms: 300, next_wake_ms: 1042 }
    );
}

#[test]
fn probe_results_drive_the_routing() {
    let addresses: Vec<String> = ["a:80", "b:80"].iter().map(|s| s.to_string()).collect();
    let pool = Pool::register(&addresses).unwrap();
    let mut prober = pool.start_health_checks(1000, 300).unwrap();
    let mut lb = LB::new(pool);
    let mut feed = |lb: &mut LB, backend: usize, outcome: ProbeOutcome| {
        let result = ProbeResult::observed(backend, outcome, 0);
        if let ProberAction::SetHealth { backend, healthy } =
            prober.step(ProberEvent::Probed(result))
        {
            lb.set_health(backend, healthy);
        }
    };
    feed(&mut lb, 1, ProbeOutcome::Unreachable);
    for _ in 0..4 {
        assert_eq!(lb.route().unwrap().target_address, "a:80");
    }
    feed(&mut lb, 0, ProbeOutcome::TimedOut);
    assert_eq!(lb.route(), Err(RouteError::NoHealthyBackend));
    feed(&mut lb, 1, ProbeOutcome::Reachable);
    for _ in 0..4 {
        assert_eq!(lb.route().unwrap().target_address, "b:80");
    }
    feed(&mut lb, 0, ProbeOutcome::Reachable);
    let first = lb.route().unwrap().target_address;
    let second = lb.route().unwrap().target_address;
    assert_ne!(first, second);
}
