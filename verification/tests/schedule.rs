use event_listener::Listener;
use microsleep::schedule::{
    advance, park, plan_wait, probe, until, Probe, WaitPlan, FAST_PATH_WINDOW_MS, POLL_INTERVAL_MS,
};
use microsleep::timeheap::TimeHeap;
use std::sync::Arc;
use std::time::Duration;

#[test]
fn window_and_interval() {
    assert_eq!(FAST_PATH_WINDOW_MS, 50);
    assert_eq!(POLL_INTERVAL_MS, 1);
}

#[test]
fn near_deadline_is_polled() {
    assert_eq!(plan_wait(100, Some(101)), WaitPlan::Poll { millis: 1 });
    assert_eq!(plan_wait(100, Some(150)), WaitPlan::Poll { millis: 1 });
    assert_eq!(plan_wait(0, Some(50)), WaitPlan::Poll { millis: 1 });
}

#[test]
fn far_deadline_is_parked_on() {
    assert_eq!(plan_wait(100, Some(151)), WaitPlan::Park { until: 151 });
    assert_eq!(plan_wait(0, Some(51)), WaitPlan::Park { until: 51 });
    assert_eq!(plan_wait(7, Some(u64::MAX)), WaitPlan::Park { until: u64::MAX });
}

#[test]
fn overdue_deadline_is_polled() {
    assert_eq!(plan_wait(100, Some(100)), WaitPlan::Poll { millis: 1 });
    assert_eq!(plan_wait(100, Some(3)), WaitPlan::Poll { millis: 1 });
    assert_eq!(plan_wait(u64::MAX, Some(0)), WaitPlan::Poll { millis: 1 });
}

#[test]
fn empty_table_is_parked_on_the_last_epoch() {
    assert_eq!(plan_wait(0, None), WaitPlan::Park { until: u64::MAX });
    assert_eq!(plan_wait(1_000_000, None), WaitPlan::Park { until: u64::MAX });
    assert_eq!(plan_wait(u64::MAX - 50, None), WaitPlan::Poll { millis: 1 });
    assert_eq!(plan_wait(u64::MAX - 51, None), WaitPlan::Park { until: u64::MAX });
}

#[test]
fn advance_fires_then_plans() {
    let mut heap = TimeHeap::new();
    let e10 = heap.subscribe(10);
    let e40 = heap.subscribe(40);
    let e500 = heap.subscribe(500);
    assert_eq!(advance(&mut heap, 0), WaitPlan::Poll { millis: 1 });
    assert!(!e10.signal.is_set());
    assert_eq!(advance(&mut heap, 10), WaitPlan::Poll { millis: 1 });
    assert!(e10.signal.is_set());
    assert!(!e40.signal.is_set());
    assert_eq!(advance(&mut heap, 45), WaitPlan::Park { until: 500 });
    assert!(e40.signal.is_set());
    assert!(!e500.signal.is_set());
    assert_eq!(advance(&mut heap, 450), WaitPlan::Poll { millis: 1 });
    assert_eq!(advance(&mut heap, 500), WaitPlan::Park { until: u64::MAX });
    assert!(e500.signal.is_set());
    assert_eq!(heap.len(), 0);
}

#[test]
fn park_listens_and_reads_the_target() {
    let mut heap = TimeHeap::new();
    let (_, target) = park(&heap);
    assert_eq!(target, u64::MAX);
    heap.subscribe(700);
    heap.subscribe(300);
    let (listener, target) = park(&heap);
    assert_eq!(target, 300);
    heap.subscribe(20);
    assert!(listener.wait_timeout(Duration::from_secs(5)).is_some());
}

#[test]
fn due_deadline_registers_nothing() {
    let mut heap = TimeHeap::new();
    assert!(until(&mut heap, 100, 100).is_none());
    assert!(until(&mut heap, 100, 99).is_none());
    assert!(until(&mut heap, 100, 0).is_none());
    assert_eq!(heap.len(), 0);
    assert_eq!(heap.changes(), 0);
    heap.subscribe(60);
    assert!(until(&mut heap, 100, 60).is_none());
    assert!(until(&mut heap, 100, 20).is_none());
    assert_eq!(heap.len(), 1);
    assert_eq!(heap.changes(), 1);
    assert_eq!(heap.earliest_tick(), Some(60));
}

#[test]
fn future_deadline_is_registered() {
    let mut heap = TimeHeap::new();
    let evt = until(&mut heap, 100, 101).expect("the deadline lies ahead");
    assert!(!evt.signal.is_set());
    assert_eq!(heap.len(), 1);
    assert_eq!(heap.earliest_tick(), Some(101));
    assert_eq!(heap.changes(), 1);
    let again = until(&mut heap, 100, 101).expect("the deadline lies ahead");
    assert!(Arc::ptr_eq(&evt.signal, &again.signal));
    assert_eq!(heap.len(), 1);
    assert_eq!(heap.changes(), 1);
    heap.fire_before(101);
    assert!(evt.signal.is_set());
    assert!(again.signal.is_set());
}

#[test]
fn probe_tells_due_found_and_missing_apart() {
    let mut heap = TimeHeap::new();
    let evt = heap.subscribe(80);
    assert!(matches!(probe(&heap, 80, 80), Probe::Due));
    assert!(matches!(probe(&heap, 90, 80), Probe::Due));
    assert!(matches!(probe(&heap, 10, 81), Probe::Missing));
    match probe(&heap, 10, 80) {
        Probe::Found(found) => assert!(Arc::ptr_eq(&found.signal, &evt.signal)),
        _ => panic!("the epoch is pending"),
    }
    assert_eq!(heap.len(), 1);
    assert_eq!(heap.changes(), 1);
}

#[test]
fn later_registration_with_earlier_deadline_resumes_first() {
    let mut heap = TimeHeap::new();
    let slow = until(&mut heap, 0, 500).expect("the deadline lies ahead");
    assert_eq!(advance(&mut heap, 0), WaitPlan::Park { until: 500 });
    let (listener, target) = park(&heap);
    assert_eq!(target, 500);
    let quick = until(&mut heap, 0, 10).expect("the deadline lies ahead");
    assert!(listener.wait_timeout(Duration::from_secs(5)).is_some());
    assert_eq!(advance(&mut heap, 0), WaitPlan::Poll { millis: 1 });
    assert_eq!(advance(&mut heap, 10), WaitPlan::Park { until: 500 });
    assert!(quick.signal.is_set());
    assert!(!slow.signal.is_set());
    assert_eq!(advance(&mut heap, 500), WaitPlan::Park { until: u64::MAX });
    assert!(slow.signal.is_set());
}
