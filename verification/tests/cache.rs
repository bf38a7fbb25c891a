use std::cell::Cell;

use reasonable::cache::{Cache, Effect, Event};

#[test]
fn scenario_a_second_get_shares_value() {
    let calls = Cell::new(0u32);
    let f = |_k: String| {
        calls.set(calls.get() + 1);
        Some(7u64)
    };
    let mut c = Cache::new(f, 50);
    let first = c.get(String::from("A"));
    assert_eq!(first, Some(7));
    // a second get while the first lease is still held
    let second = c.get(String::from("A"));
    assert_eq!(second, Some(7));
    assert_eq!(calls.get(), 1);
    assert_eq!(c.refcount(&String::from("A")), Some(2));
}

#[test]
fn scenario_b_grace_period_keeps_entry_until_expire() {
    let calls = Cell::new(0u32);
    let f = |_k: String| {
        calls.set(calls.get() + 1);
        Some(1u64)
    };
    let mut c = Cache::new(f, 50);
    assert_eq!(c.get(String::from("B")), Some(1));
    // the only lease is released: the count reaches zero, a timer gets scheduled
    assert!(c.decr(String::from("B")));
    // shortly after, before the timer fires: still cached, the handler is not re-invoked
    assert_eq!(c.get(String::from("B")), Some(1));
    assert_eq!(calls.get(), 1);
    // the stale timer fires: the entry was reacquired, so the check is a no-op
    c.expire(String::from("B"));
    assert!(c.contains_key(&String::from("B")));
    // the second lease is released too and its own timer later fires
    assert!(c.decr(String::from("B")));
    c.expire(String::from("B"));
    assert!(!c.contains_key(&String::from("B")));
    // well past the grace period: a fresh get regenerates the value
    assert_eq!(c.get(String::from("B")), Some(1));
    assert_eq!(calls.get(), 2);
}

#[test]
fn scenario_c_absent_key_never_cached() {
    let calls = Cell::new(0u32);
    let f = |_k: String| -> Option<u64> {
        calls.set(calls.get() + 1);
        None
    };
    let mut c = Cache::new(f, 50);
    assert_eq!(c.get(String::from("C")), None);
    assert!(!c.contains_key(&String::from("C")));
    assert_eq!(c.get(String::from("C")), None);
    assert_eq!(calls.get(), 2);
}

#[test]
fn miss_handler_result_is_returned_verbatim() {
    let f = |k: String| Some(k.len() as u64);
    let mut c = Cache::new(f, 10);
    assert_eq!(c.get(String::from("xyz")), Some(3));
    assert_eq!(c.get(String::from("")), Some(0));
    assert_eq!(c.get(String::from("xyz")), Some(3));
}

#[test]
fn reacquired_entry_survives_stale_expire() {
    let f = |_k: String| Some(9u64);
    let mut c = Cache::new(f, 50);
    assert_eq!(c.get(String::from("K")), Some(9));
    assert!(c.decr(String::from("K")));
    // reacquired during the grace window
    assert_eq!(c.get(String::from("K")), Some(9));
    // the timer from the zero-crossing fires late: it must not remove the entry
    c.expire(String::from("K"));
    assert!(c.contains_key(&String::from("K")));
    assert_eq!(c.refcount(&String::from("K")), Some(1));
}

#[test]
fn each_release_undoes_one_acquisition() {
    let f = |_k: String| Some(0u64);
    let mut c = Cache::new(f, 50);
    for _ in 0..3 {
        assert_eq!(c.get(String::from("K")), Some(0));
    }
    assert_eq!(c.refcount(&String::from("K")), Some(3));
    assert!(!c.decr(String::from("K")));
    assert!(!c.decr(String::from("K")));
    assert!(c.decr(String::from("K")));
    assert_eq!(c.refcount(&String::from("K")), Some(0));
    c.expire(String::from("K"));
    assert!(!c.contains_key(&String::from("K")));
}

#[test]
fn handle_reports_effects() {
    let f = |_k: String| Some(5u64);
    let mut c = Cache::new(f, 75);
    match c.handle(Event::Get(String::from("k"))) {
        Effect::Reply(Some(5)) => {}
        _ => panic!("a get must be answered with its value"),
    }
    match c.handle(Event::Decr(String::from("k"))) {
        Effect::Schedule(k, d) => {
            assert_eq!(k, "k");
            assert_eq!(d, 75);
        }
        _ => panic!("the last release must schedule an expiry check"),
    }
    match c.handle(Event::Decr(String::from("k"))) {
        Effect::Nothing => {}
        _ => panic!("a release of an idle entry schedules nothing"),
    }
    match c.handle(Event::Expire(String::from("k"))) {
        Effect::Nothing => {}
        _ => panic!("an expiry check asks nothing of the loop"),
    }
    assert!(!c.contains_key(&String::from("k")));
}

#[test]
fn release_of_unknown_key_is_harmless() {
    let f = |_k: String| Some(1u64);
    let mut c = Cache::new(f, 50);
    assert!(!c.decr(String::from("ghost")));
    c.expire(String::from("ghost"));
    c.incr(String::from("ghost"));
    assert!(!c.contains_key(&String::from("ghost")));
}

#[test]
fn interleaved_keys_account_independently() {
    let f = |k: String| Some(k);
    let mut c = Cache::new(f, 50);
    assert_eq!(c.get(String::from("a")), Some(String::from("a")));
    assert_eq!(c.get(String::from("b")), Some(String::from("b")));
    assert_eq!(c.get(String::from("a")), Some(String::from("a")));
    assert!(!c.decr(String::from("a")));
    c.expire(String::from("a"));
    assert!(c.contains_key(&String::from("a")));
    assert!(c.decr(String::from("b")));
    assert_eq!(c.get(String::from("b")), Some(String::from("b")));
    c.expire(String::from("b"));
    assert!(c.contains_key(&String::from("b")));
    assert!(c.decr(String::from("a")));
    c.expire(String::from("a"));
    assert!(!c.contains_key(&String::from("a")));
    assert_eq!(c.refcount(&String::from("b")), Some(1));
}

#[test]
fn regenerated_value_is_fresh() {
    let counter = Cell::new(0u64);
    let f = |_k: String| {
        counter.set(counter.get() + 1);
        Some(counter.get())
    };
    let mut c = Cache::new(f, 50);
    assert_eq!(c.get(String::from("k")), Some(1));
    assert!(c.decr(String::from("k")));
    c.expire(String::from("k"));
    // the entry was removed: the next get generates anew
    assert_eq!(c.get(String::from("k")), Some(2));
}
