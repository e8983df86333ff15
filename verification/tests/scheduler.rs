use riverbar::scheduler::{
    classify_event, coalesced_period, gcd, validate_notification_ids, Block, IdError, Scheduler,
    SchedulerEvent, TERM_ID, TICK_ID,
};

fn block(interval: u32, signal: u32) -> Block {
    Block { icon: String::new(), command: String::from("date"), interval, signal }
}

#[test]
fn test_gcd_values() {
    assert_eq!(gcd(4, 6), 2);
    assert_eq!(gcd(6, 4), 2);
    assert_eq!(gcd(5, 0), 5);
    assert_eq!(gcd(0, 5), 5);
    assert_eq!(gcd(0, 0), 0);
    assert_eq!(gcd(12, 18), 6);
}

#[test]
fn test_coalesced_period_two_intervals() {
    let blocks = vec![block(4, 0), block(6, 0)];
    assert_eq!(coalesced_period(&blocks), 2);
}

#[test]
fn test_coalesced_period_single_interval() {
    let blocks = vec![block(5, 0)];
    assert_eq!(coalesced_period(&blocks), 5);
}

#[test]
fn test_coalesced_period_disabled_when_no_periodic_block() {
    let none: Vec<Block> = Vec::new();
    assert_eq!(coalesced_period(&none), 0);
    let all_zero = vec![block(0, 1), block(0, 2)];
    assert_eq!(coalesced_period(&all_zero), 0);
}

#[test]
fn test_coalesced_period_ignores_non_periodic_blocks() {
    let blocks = vec![block(4, 0), block(0, 5), block(6, 0)];
    assert_eq!(coalesced_period(&blocks), 2);
}

#[test]
fn test_validate_ids_accepts_distinct_ids() {
    let blocks = vec![block(1, 1), block(0, 2), block(3, 0), block(2, 0)];
    assert!(validate_notification_ids(&blocks).is_ok());
}

#[test]
fn test_validate_ids_rejects_reserved_tick_id() {
    let blocks = vec![block(1, TICK_ID)];
    assert!(matches!(
        validate_notification_ids(&blocks),
        Err(IdError::ReservedCollision { block: 0 })
    ));
}

#[test]
fn test_validate_ids_rejects_reserved_term_id() {
    let blocks = vec![block(0, 3), block(1, TERM_ID)];
    assert!(matches!(
        validate_notification_ids(&blocks),
        Err(IdError::ReservedCollision { block: 1 })
    ));
}

#[test]
fn test_validate_ids_rejects_duplicate_id() {
    let blocks = vec![block(1, 7), block(0, 3), block(2, 7)];
    assert!(matches!(
        validate_notification_ids(&blocks),
        Err(IdError::DuplicateId { first: 0, second: 2 })
    ));
}

#[test]
fn test_classify_event() {
    assert!(matches!(classify_event(TICK_ID), SchedulerEvent::Tick));
    assert!(matches!(classify_event(TERM_ID), SchedulerEvent::Terminate));
    assert!(matches!(classify_event(5), SchedulerEvent::Notification { id: 5 }));
}

#[test]
fn test_new_scheduler_seeds_empty_outputs() {
    let s = Scheduler::new(vec![block(1, 0), block(0, 5)]);
    assert_eq!(s.period, 1);
    assert_eq!(s.elapsed, 0);
    assert!(s.running);
    assert_eq!(s.outputs, vec![String::new(), String::new()]);
}

#[test]
fn test_store_output_overwrites_one_block() {
    let mut s = Scheduler::new(vec![block(1, 0), block(0, 5)]);
    s.store_output(0, String::from("12:00"));
    assert_eq!(s.outputs[0], "12:00");
    assert_eq!(s.outputs[1], "");
}

#[test]
fn test_end_to_end_tick_notification_termination() {
    // Block A: periodic every second. Block B: only on notification 5.
    let mut s = Scheduler::new(vec![block(1, 0), block(0, 5)]);
    assert_eq!(s.period, 1);

    // A periodic tick schedules only A.
    let a = s.step(SchedulerEvent::Tick);
    assert_eq!(a.due, vec![0]);
    assert!(a.redraw);
    assert_eq!(a.rearm, 1);
    assert_eq!(s.elapsed, 1);

    // Notification 5 schedules only B.
    let a = s.step(SchedulerEvent::Notification { id: 5 });
    assert_eq!(a.due, vec![1]);
    assert!(a.redraw);
    assert_eq!(a.rearm, 0);
    assert_eq!(s.elapsed, 1);

    // Termination stops the loop: no redraw, no timer rearm, not running.
    let a = s.step(SchedulerEvent::Terminate);
    assert!(a.due.is_empty());
    assert!(!a.redraw);
    assert_eq!(a.rearm, 0);
    assert!(!s.running);
}

#[test]
fn test_tick_due_respects_intervals() {
    let mut s = Scheduler::new(vec![block(2, 0), block(3, 0), block(0, 4)]);
    assert_eq!(s.period, 1);
    // elapsed 0: both periodic blocks are due.
    assert_eq!(s.tick_due(), vec![0, 1]);
    s.step(SchedulerEvent::Tick);
    // elapsed 1: neither.
    assert_eq!(s.tick_due(), Vec::<usize>::new());
    s.step(SchedulerEvent::Tick);
    // elapsed 2: only the interval-2 block.
    assert_eq!(s.tick_due(), vec![0]);
    s.step(SchedulerEvent::Tick);
    // elapsed 3: only the interval-3 block.
    assert_eq!(s.tick_due(), vec![1]);
}
