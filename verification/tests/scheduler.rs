use activity_tracker::scheduler::{Scheduler, SYNC_INTERVAL};

#[test]
fn a_new_scheduler_has_counted_nothing() {
    assert_eq!(SYNC_INTERVAL, 300);
    assert_eq!(Scheduler::new(SYNC_INTERVAL), Scheduler { tick: 0, interval: 300 });
}

#[test]
fn the_first_sync_is_due_once_the_interval_is_counted() {
    let mut scheduler = Scheduler::new(SYNC_INTERVAL);
    for _ in 0..300 {
        assert!(!scheduler.advance(true));
    }
    assert_eq!(scheduler.tick, 300);
    assert!(scheduler.advance(true));
    assert_eq!(scheduler.tick, 1);
}

#[test]
fn a_sync_is_due_every_interval() {
    let mut scheduler = Scheduler::new(5);
    let due: Vec<bool> = (0..17).map(|_| scheduler.advance(true)).collect();
    let at: Vec<usize> = (0..17).filter(|tick| due[*tick]).collect();
    assert_eq!(at, vec![5, 10, 15]);
}

#[test]
fn no_sync_is_due_while_sync_is_disabled() {
    let mut scheduler = Scheduler::new(3);
    for _ in 0..10 {
        assert!(!scheduler.advance(false));
    }
    assert_eq!(scheduler.tick, 10);
    assert!(scheduler.advance(true));
    assert_eq!(scheduler.tick, 1);
}

#[test]
fn the_count_stops_at_its_highest_number() {
    let mut scheduler = Scheduler { tick: u32::MAX - 1, interval: 300 };
    assert!(!scheduler.advance(false));
    assert_eq!(scheduler.tick, u32::MAX);
    assert!(!scheduler.advance(false));
    assert_eq!(scheduler.tick, u32::MAX);
    assert!(scheduler.advance(true));
    assert_eq!(scheduler.tick, 1);
}

#[test]
fn an_interval_of_nothing_makes_every_tick_due() {
    let mut scheduler = Scheduler::new(0);
    assert!(scheduler.advance(true));
    assert!(scheduler.advance(true));
    assert!(!scheduler.advance(false));
}
