use pixel_tasks::animator::{ColorAnimator, PanelTask};
use pixel_tasks::blink::{BlinkTask, Level};
use pixel_tasks::button::{ButtonId, ButtonTask};
use pixel_tasks::runtime::{capacity, Action, Runtime, SpawnError, Task, TaskKind, BUTTON_POOL};

fn button(id: ButtonId) -> Task {
    Task::Button(ButtonTask::new(id, 0, 100))
}

#[test]
fn pools_have_their_capacities() {
    assert_eq!(capacity(TaskKind::Blink), 1);
    assert_eq!(capacity(TaskKind::Panel), 1);
    assert_eq!(capacity(TaskKind::Button), 4);
    assert_eq!(BUTTON_POOL, 4);
}

#[test]
fn fifth_button_is_refused_and_the_four_keep_running() {
    let mut rt = Runtime::new();
    let ids = [ButtonId::Btn1, ButtonId::Btn2, ButtonId::Btn3, ButtonId::Btn4];
    for (i, id) in ids.iter().enumerate() {
        assert_eq!(rt.spawn(button(*id)), Ok(i));
    }
    assert_eq!(rt.spawn(button(ButtonId::Btn1)), Err(SpawnError::PoolExhausted));
    assert_eq!(rt.len(), 4);
    assert_eq!(rt.count(TaskKind::Button), 4);
    for (i, id) in ids.iter().enumerate() {
        match rt.task(i) {
            Task::Button(b) => assert_eq!(b.id(), *id),
            _ => panic!("slot {} is not a button poller", i),
        }
    }
    match rt.resume(3, true) {
        Action::Sampled(e) => assert_eq!(e, Some(ButtonId::Btn4)),
        _ => panic!("a button poller asked for another action"),
    }
}

#[test]
fn one_blinker_and_one_panel_at_most() {
    let mut rt = Runtime::new();
    assert_eq!(rt.spawn(Task::Blink(BlinkTask::new(Level::High, Level::Low, 0, 1000))), Ok(0));
    assert_eq!(
        rt.spawn(Task::Blink(BlinkTask::new(Level::High, Level::Low, 0, 1000))),
        Err(SpawnError::PoolExhausted)
    );
    assert_eq!(rt.spawn(Task::Panel(PanelTask::new(ColorAnimator::new(36), 0, 15))), Ok(1));
    assert_eq!(
        rt.spawn(Task::Panel(PanelTask::new(ColorAnimator::new(36), 0, 15))),
        Err(SpawnError::PoolExhausted)
    );
    assert_eq!(rt.spawn(button(ButtonId::Btn1)), Ok(2));
    assert_eq!(rt.len(), 3);
}

#[test]
fn next_due_is_earliest_with_ties_in_spawn_order() {
    let mut rt = Runtime::new();
    assert_eq!(rt.next_due(), None);
    rt.spawn(Task::Blink(BlinkTask::new(Level::High, Level::Low, 0, 1000))).unwrap();
    rt.spawn(Task::Panel(PanelTask::new(ColorAnimator::new(3), 0, 15))).unwrap();
    rt.spawn(button(ButtonId::Btn1)).unwrap();
    assert_eq!(rt.next_due(), Some(0));
    match rt.resume(0, false) {
        Action::SetLevels(a, b) => assert_eq!((a, b), (Level::Low, Level::High)),
        _ => panic!("the blinker asked for another action"),
    }
    assert_eq!(rt.next_due(), Some(1));
    match rt.resume(1, false) {
        Action::WriteFrame(f, lap) => {
            assert_eq!(f.len(), 3);
            assert!(!lap);
        }
        _ => panic!("the panel asked for another action"),
    }
    assert_eq!(rt.next_due(), Some(2));
    rt.resume(2, false);
    assert_eq!(rt.next_due(), Some(1));
    assert_eq!(rt.task(1).ready_at(), 15);
    assert_eq!(rt.task(0).ready_at(), 1000);
    assert_eq!(rt.task(2).kind(), TaskKind::Button);
}

#[test]
fn run_until_serves_every_task_as_if_alone() {
    let mut rt = Runtime::new();
    rt.spawn(Task::Blink(BlinkTask::new(Level::High, Level::Low, 0, 1000))).unwrap();
    rt.spawn(Task::Panel(PanelTask::new(ColorAnimator::new(36), 0, 15))).unwrap();
    for id in [ButtonId::Btn1, ButtonId::Btn2, ButtonId::Btn3, ButtonId::Btn4] {
        rt.spawn(Task::Button(ButtonTask::new(id, 0, 100))).unwrap();
    }
    rt.run_until(3000, &vec![true, false, true, false]);
    match rt.task(0) {
        Task::Blink(b) => {
            assert_eq!(b.toggle_count(), 3);
            assert_eq!(b.levels(), (Level::Low, Level::High));
        }
        _ => panic!("slot 0 is not the blinker"),
    }
    match rt.task(1) {
        Task::Panel(p) => {
            assert_eq!(p.ready_at(), 3000);
            assert_eq!(p.animator().hue(), 200);
            assert_eq!(p.laps(), 0);
        }
        _ => panic!("slot 1 is not the panel"),
    }
    let expected = [30u64, 0, 30, 0];
    for i in 0..4 {
        match rt.task(2 + i) {
            Task::Button(b) => {
                assert_eq!(b.presses(), expected[i]);
                assert_eq!(b.ready_at(), 3000);
            }
            _ => panic!("slot {} is not a button poller", 2 + i),
        }
    }
    for i in 0..rt.len() {
        assert!(rt.task(i).ready_at() >= 3000);
    }
}

#[test]
fn run_until_counts_panel_laps_over_a_full_sweep() {
    let mut rt = Runtime::new();
    rt.spawn(Task::Panel(PanelTask::new(ColorAnimator::new(3), 0, 15))).unwrap();
    rt.run_until(256 * 15, &vec![false; 4]);
    match rt.task(0) {
        Task::Panel(p) => {
            assert_eq!(p.laps(), 1);
            assert_eq!(p.animator().hue(), 0);
        }
        _ => panic!("slot 0 is not the panel"),
    }
}
