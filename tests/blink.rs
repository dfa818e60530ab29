use pixel_tasks::blink::{BlinkTask, Level};

#[test]
fn toggled_swaps_levels() {
    assert_eq!(Level::Low.toggled(), Level::High);
    assert_eq!(Level::High.toggled(), Level::Low);
}

#[test]
fn wake_toggles_both_outputs() {
    let mut t = BlinkTask::new(Level::High, Level::Low, 0, 1000);
    assert_eq!(t.wake(), (Level::Low, Level::High));
    assert_eq!(t.wake(), (Level::High, Level::Low));
    assert_eq!(t.toggle_count(), 2);
    assert_eq!(t.ready_at(), 2000);
}

#[test]
fn blinker_toggles_once_per_whole_period() {
    for &(span, expected) in &[(0u64, 0u64), (1000, 1), (3000, 3), (60_000, 60)] {
        let mut t = BlinkTask::new(Level::High, Level::Low, 0, 1000);
        t.run_until(span);
        assert_eq!(t.toggle_count(), expected);
        let (a, b) = t.levels();
        let odd = expected % 2 == 1;
        assert_eq!(a, if odd { Level::Low } else { Level::High });
        assert_eq!(b, if odd { Level::High } else { Level::Low });
    }
}

#[test]
fn blinker_counts_a_begun_period() {
    let mut t = BlinkTask::new(Level::Low, Level::Low, 0, 1000);
    t.run_until(2500);
    assert_eq!(t.toggle_count(), 3);
    assert_eq!(t.levels(), (Level::High, Level::High));
}

#[test]
fn blinker_started_later_waits_for_its_start() {
    let mut t = BlinkTask::new(Level::High, Level::Low, 500, 1000);
    t.run_until(500);
    assert_eq!(t.toggle_count(), 0);
    t.run_until(3500);
    assert_eq!(t.toggle_count(), 3);
    t.run_until(100);
    assert_eq!(t.toggle_count(), 3);
}
