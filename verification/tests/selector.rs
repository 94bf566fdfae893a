use upstream_pool::backend::Backend;
use upstream_pool::pool::Pool;
use upstream_pool::selector::{Selection, Selector};

fn pool(list: &[&str]) -> Pool {
    let addresses: Vec<String> = list.iter().map(|s| s.to_string()).collect();
    Pool::register(&addresses).unwrap()
}

fn chosen(address: &str) -> Selection {
    Selection::Backend(Backend::new(address).unwrap())
}

#[test]
fn a_new_selector_starts_at_zero() {
    assert_eq!(Selector::new().cursor(), 0);
    assert_eq!(Selector::starting_at(9).cursor(), 9);
}

#[test]
fn select_visits_every_backend_before_it_repeats() {
    let pool = pool(&["a:1", "b:2", "c:3", "d:4", "e:5"]);
    let mut selector = Selector::new();
    for round in 0..4 {
        for expected in ["a:1", "b:2", "c:3", "d:4", "e:5"] {
            assert_eq!(selector.select(&pool), chosen(expected), "round {round}");
        }
    }
    assert_eq!(selector.cursor(), 20);
}

#[test]
fn select_over_one_backend_yields_it_every_time() {
    let pool = pool(&["a:1"]);
    let mut selector = Selector::new();
    for _ in 0..3 {
        assert_eq!(selector.select(&pool), chosen("a:1"));
    }
}

#[test]
fn select_rotates_over_the_healthy_backends_only() {
    let mut pool = pool(&["a:1", "b:2", "c:3"]);
    pool.set_health(1, false);
    let mut selector = Selector::new();
    for _ in 0..3 {
        assert_eq!(selector.select(&pool), chosen("a:1"));
        assert_eq!(selector.select(&pool), chosen("c:3"));
    }
}

#[test]
fn select_takes_the_cursor_modulo_the_healthy_count() {
    let mut pool = pool(&["a:1", "b:2", "c:3"]);
    let mut selector = Selector::starting_at(7);
    assert_eq!(selector.select(&pool), chosen("b:2"));
    assert_eq!(selector.cursor(), 8);
    pool.set_health(0, false);
    assert_eq!(selector.select(&pool), chosen("b:2"));
    assert_eq!(selector.select(&pool), chosen("c:3"));
    assert_eq!(selector.cursor(), 10);
}

#[test]
fn select_is_exhausted_when_no_backend_is_healthy_and_keeps_the_cursor() {
    let mut pool = pool(&["a:1", "b:2"]);
    pool.set_health(0, false);
    pool.set_health(1, false);
    let mut selector = Selector::starting_at(3);
    assert_eq!(selector.select(&pool), Selection::Exhausted);
    assert_eq!(selector.select(&pool), Selection::Exhausted);
    assert_eq!(selector.cursor(), 3);
    pool.set_health(1, true);
    assert_eq!(selector.select(&pool), chosen("b:2"));
    assert_eq!(selector.cursor(), 4);
}

#[test]
fn the_cursor_starts_over_after_the_largest_value() {
    let pool = pool(&["a:1", "b:2"]);
    let mut selector = Selector::starting_at(usize::MAX);
    assert_eq!(selector.select(&pool), chosen("b:2"));
    assert_eq!(selector.cursor(), 0);
    assert_eq!(selector.select(&pool), chosen("a:1"));
    assert_eq!(selector.cursor(), 1);
}

#[test]
fn an_unhealthy_backend_is_never_selected() {
    let mut pool = pool(&["a:1", "b:2", "c:3", "d:4"]);
    pool.set_health(2, false);
    let mut selector = Selector::new();
    for step in 0..200 {
        if step % 7 == 0 {
            pool.set_health(step % 2, step % 3 == 0);
        }
        assert_ne!(selector.select(&pool), chosen("c:3"));
    }
    pool.set_health(2, true);
    let mut seen = false;
    for _ in 0..4 {
        seen = seen || selector.select(&pool) == chosen("c:3");
    }
    assert!(seen);
}
