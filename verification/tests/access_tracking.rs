use attic_logic::access_tracking::{collect_batch, AccessBatch, BatchEvent, MAX_BATCH_SIZE};
use std::collections::HashSet;

#[test]
fn batch_deduplicates_object_ids() {
    // The queue delivers 7, 7 and 9, then closes; the first 7 opens the batch.
    let events = [
        BatchEvent::Received(7),
        BatchEvent::Received(9),
        BatchEvent::Closed,
    ];
    let first_id = 7;
    let (object_ids, _) = collect_batch(first_id, &events);

    assert_eq!(HashSet::from([7, 9]), object_ids);
}

#[test]
fn batch_size_is_bounded() {
    // The queue holds 0..=MAX_BATCH_SIZE; 0 opens the batch.
    let events: Vec<BatchEvent> = (1..=MAX_BATCH_SIZE as i64)
        .map(BatchEvent::Received)
        .collect();

    let first_id = 0;
    let (object_ids, taken) = collect_batch(first_id, &events);

    assert_eq!(MAX_BATCH_SIZE, object_ids.len());
    // The next id is still waiting in the queue.
    assert_eq!(Some(&BatchEvent::Received(MAX_BATCH_SIZE as i64)), events.get(taken));
}

#[test]
fn deadline_ends_the_batch() {
    let events = [
        BatchEvent::Received(2),
        BatchEvent::DeadlineReached,
        BatchEvent::Received(3),
    ];
    let (ids, taken) = collect_batch(1, &events);
    assert_eq!(HashSet::from([1, 2]), ids);
    assert_eq!(2, taken);
}

#[test]
fn closing_ends_the_batch() {
    let (ids, taken) = collect_batch(5, &[BatchEvent::Closed, BatchEvent::Received(6)]);
    assert_eq!(HashSet::from([5]), ids);
    assert_eq!(1, taken);
}

#[test]
fn batch_stops_when_events_run_out() {
    let (ids, taken) = collect_batch(-4, &[BatchEvent::Received(-4), BatchEvent::Received(8)]);
    assert_eq!(HashSet::from([-4, 8]), ids);
    assert_eq!(2, taken);
}

#[test]
fn state_machine_steps() {
    let mut batch = AccessBatch::new(10);
    assert_eq!(1, batch.len());
    assert!(batch.wants_more());
    assert!(batch.on_event(BatchEvent::Received(11)));
    assert!(batch.on_event(BatchEvent::Received(10)));
    assert_eq!(2, batch.len());
    assert!(!batch.on_event(BatchEvent::DeadlineReached));
    assert_eq!(HashSet::from([10, 11]), batch.into_ids());
}

#[test]
fn full_batch_wants_no_more() {
    let mut batch = AccessBatch::new(0);
    for id in 1..MAX_BATCH_SIZE as i64 {
        assert!(batch.wants_more());
        assert!(batch.on_event(BatchEvent::Received(id)));
    }
    assert_eq!(MAX_BATCH_SIZE, batch.len());
    assert!(!batch.wants_more());
}
