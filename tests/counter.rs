use std::sync::{Arc, Mutex};

use shared_counter::handler::{append_decimal, data_handler, response_body};
use shared_counter::{OperationData, SharedData};

fn run_increments_concurrently(store: &Arc<Mutex<SharedData>>, tasks: usize, per_task: usize) {
    let rt = tokio::runtime::Builder::new_multi_thread()
        .worker_threads(4)
        .build()
        .unwrap();
    let mut handles = Vec::new();
    for _ in 0..tasks {
        let shared = Arc::clone(store);
        handles.push(rt.spawn_blocking(move || {
            for _ in 0..per_task {
                shared.lock().unwrap().increment();
            }
        }));
    }
    for h in handles {
        rt.block_on(h).unwrap();
    }
}

#[test]
fn new_store_starts_at_zero() {
    let store = SharedData::new();
    assert_eq!(store.get(), 0);
}

#[test]
fn sequential_increments_from_zero() {
    let mut store = SharedData::new();
    for _ in 0..1000 {
        store.increment();
    }
    assert_eq!(store.get(), 1000);
}

#[test]
fn increments_then_decrements() {
    let mut store = SharedData::new();
    for _ in 0..7 {
        store.increment();
    }
    for _ in 0..3 {
        store.decrement();
    }
    assert_eq!(store.get(), 4);
}

#[test]
fn more_decrements_than_increments_wrap() {
    let mut store = SharedData::new();
    for _ in 0..2 {
        store.increment();
    }
    for _ in 0..5 {
        store.decrement();
    }
    assert_eq!(store.get(), usize::MAX - 2);
}

#[test]
fn decrement_from_zero_wraps_to_max() {
    let mut store = SharedData::new();
    store.decrement();
    assert_eq!(store.get(), usize::MAX);
}

#[test]
fn increment_from_max_wraps_to_zero() {
    let mut store = SharedData { counter: usize::MAX };
    store.increment();
    assert_eq!(store.get(), 0);
}

#[test]
fn concurrent_increments_lose_no_update() {
    let store = Arc::new(Mutex::new(SharedData { counter: 25 }));
    run_increments_concurrently(&store, 8, 500);
    assert_eq!(store.lock().unwrap().get(), 25 + 8 * 500);
}

#[test]
fn copy_is_independent_of_original() {
    let mut original = SharedData::new();
    for _ in 0..5 {
        original.increment();
    }
    let mut copy = original.clone();
    assert_eq!(copy.get(), 5);
    for _ in 0..3 {
        original.increment();
    }
    assert_eq!(copy.get(), 5);
    assert_eq!(original.get(), 8);
    copy.increment();
    copy.increment();
    assert_eq!(copy.get(), 7);
    assert_eq!(original.get(), 8);
}

#[test]
fn handler_reports_value_before_increment() {
    let mut store = SharedData { counter: 41 };
    let body = data_handler(&mut store);
    assert_eq!(body, "Current: 41");
    assert_eq!(store.get(), 42);
}

#[test]
fn handler_at_max_reports_max_and_wraps() {
    let mut store = SharedData { counter: usize::MAX };
    let body = data_handler(&mut store);
    assert_eq!(body, format!("Current: {}", usize::MAX));
    assert_eq!(store.get(), 0);
}

#[test]
fn response_body_exact_text() {
    assert_eq!(response_body(0), "Current: 0");
    assert_eq!(response_body(7), "Current: 7");
    assert_eq!(response_body(10), "Current: 10");
    assert_eq!(response_body(1234567890), "Current: 1234567890");
    assert_eq!(response_body(usize::MAX), format!("Current: {}", usize::MAX));
}

#[test]
fn append_decimal_extends_text() {
    let mut s = String::from("n=");
    append_decimal(&mut s, 905);
    assert_eq!(s, "n=905");
    append_decimal(&mut s, 0);
    assert_eq!(s, "n=9050");
}

#[test]
fn scenario_sequential_then_simultaneous_requests() {
    let store = Arc::new(Mutex::new(SharedData::new()));
    assert_eq!(data_handler(&mut *store.lock().unwrap()), "Current: 0");
    assert_eq!(store.lock().unwrap().get(), 1);
    assert_eq!(data_handler(&mut *store.lock().unwrap()), "Current: 1");
    assert_eq!(store.lock().unwrap().get(), 2);

    let rt = tokio::runtime::Builder::new_multi_thread()
        .worker_threads(2)
        .build()
        .unwrap();
    let first = Arc::clone(&store);
    let second = Arc::clone(&store);
    let a = rt.spawn_blocking(move || data_handler(&mut *first.lock().unwrap()));
    let b = rt.spawn_blocking(move || data_handler(&mut *second.lock().unwrap()));
    let body_a = rt.block_on(a).unwrap();
    let body_b = rt.block_on(b).unwrap();
    for body in [&body_a, &body_b] {
        assert!(body == "Current: 2" || body == "Current: 3");
    }
    assert_eq!(store.lock().unwrap().get(), 4);
}
