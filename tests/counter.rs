use lora_counter::counter::{CounterOp, CounterStore};
use std::sync::{Arc, Mutex};

#[test]
fn new_store_holds_zero() {
    assert_eq!(CounterStore::new().read(), 0);
}

#[test]
fn decrement_at_zero_stays_zero() {
    let mut c = CounterStore::new();
    assert_eq!(c.decrement(), 0);
    assert_eq!(c.read(), 0);
    c.apply(1);
    assert_eq!(c.decrement(), 0);
    assert_eq!(c.decrement(), 0);
}

#[test]
fn increment_saturates_at_max() {
    let mut c = CounterStore::new();
    c.apply(u32::MAX - 1);
    assert_eq!(c.increment(), u32::MAX);
    assert_eq!(c.increment(), u32::MAX);
    assert_eq!(c.read(), u32::MAX);
}

#[test]
fn hundred_increments_from_ten_callers_are_all_counted() {
    let store = Arc::new(Mutex::new(CounterStore::new()));
    store.lock().unwrap().apply(5);
    let callers: Vec<Arc<Mutex<CounterStore>>> = (0..10).map(|_| store.clone()).collect();
    for _round in 0..10 {
        for caller in &callers {
            caller.lock().unwrap().increment();
            caller.lock().unwrap().perform(CounterOp::Read);
        }
    }
    assert_eq!(store.lock().unwrap().read(), 105);
}

#[test]
fn apply_overwrites_whatever_was_there() {
    let mut c = CounterStore::new();
    c.apply(7);
    assert_eq!(c.read(), 7);
    c.apply(100);
    c.increment();
    c.apply(7);
    assert_eq!(c.read(), 7);
    c.apply(0);
    assert_eq!(c.read(), 0);
}

#[test]
fn perform_serves_each_request() {
    let mut c = CounterStore::new();
    assert_eq!(c.perform(CounterOp::Increment), 1);
    assert_eq!(c.perform(CounterOp::Increment), 2);
    assert_eq!(c.perform(CounterOp::Read), 2);
    assert_eq!(c.perform(CounterOp::Decrement), 1);
    assert_eq!(c.perform(CounterOp::Apply(9)), 9);
    assert_eq!(c.read(), 9);
}
