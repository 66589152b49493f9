use amethyst_editor_sync::timer::SendTimer;

#[test]
fn first_full_state_is_due_one_interval_after_the_start() {
    let mut timer = SendTimer::new(1000, 200);
    assert_eq!(timer.send_interval(), 200);
    assert_eq!(timer.next_send(), 1200);
    assert!(!timer.tick(1000));
    assert!(!timer.tick(1199));
    assert_eq!(timer.next_send(), 1200);
    assert!(timer.tick(1200));
    assert_eq!(timer.next_send(), 1400);
    assert!(!timer.tick(1399));
    assert!(timer.tick(1400));
    assert_eq!(timer.next_send(), 1600);
}

#[test]
fn a_long_stall_answers_for_one_full_state() {
    let mut timer = SendTimer::new(0, 200);
    assert!(timer.tick(1050));
    assert_eq!(timer.next_send(), 1200);
    assert!(!timer.tick(1051));
    assert!(!timer.tick(1199));
    assert!(timer.tick(1200));
    assert_eq!(timer.next_send(), 1400);
}

#[test]
fn interval_zero_sends_on_every_tick() {
    let mut timer = SendTimer::new(5, 0);
    assert!(timer.tick(5));
    assert!(timer.tick(5));
    assert!(timer.tick(6));
    assert!(timer.tick(1_000_000));
    assert_eq!(timer.next_send(), 5);
}

#[test]
fn steady_ticks_send_once_per_interval() {
    let mut timer = SendTimer::new(0, 200);
    let mut sent = 0;
    let mut now = 0;
    while now <= 2000 {
        if timer.tick(now) {
            sent += 1;
        }
        now += 16;
    }
    // The first deadline is 200 and the last tick is at 2000: (2000 - 200) / 200 + 1.
    assert_eq!(sent, 10);
}

#[test]
fn sparse_ticks_send_at_most_once_each() {
    let mut timer = SendTimer::new(0, 200);
    let mut sent = 0;
    for now in [1000u64, 2000, 3000] {
        if timer.tick(now) {
            sent += 1;
        }
    }
    assert_eq!(sent, 3);
    assert_eq!(timer.next_send(), 3200);
}

#[test]
fn the_clock_may_reach_its_end() {
    let mut timer = SendTimer::new(u64::MAX, u64::MAX);
    assert_eq!(timer.next_send(), 2 * (u64::MAX as u128));
    assert!(!timer.tick(u64::MAX));
    let mut timer = SendTimer::new(0, 3);
    assert!(timer.tick(u64::MAX));
    assert_eq!(timer.next_send(), u64::MAX as u128 + 3);
}
