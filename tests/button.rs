use pixel_tasks::button::{ButtonId, ButtonTask};

#[test]
fn button_numbers_round_trip() {
    for n in 1..=4u8 {
        let id = ButtonId::from_number(n).unwrap();
        assert_eq!(id.number(), n);
    }
    assert_eq!(ButtonId::from_number(0), None);
    assert_eq!(ButtonId::from_number(5), None);
    assert_eq!(ButtonId::Btn3.number(), 3);
}

#[test]
fn poll_reports_a_press_only_when_low() {
    let mut t = ButtonTask::new(ButtonId::Btn2, 0, 100);
    assert_eq!(t.poll(true), Some(ButtonId::Btn2));
    assert_eq!(t.poll(false), None);
    assert_eq!(t.poll(true), Some(ButtonId::Btn2));
    assert_eq!(t.presses(), 2);
    assert_eq!(t.ready_at(), 300);
    assert_eq!(t.id(), ButtonId::Btn2);
}

#[test]
fn held_button_reports_once_per_interval() {
    for &(span, expected) in &[(0u64, 0u64), (100, 1), (1000, 10), (2300, 23)] {
        let mut t = ButtonTask::new(ButtonId::Btn1, 0, 100);
        assert_eq!(t.run_held(span, true), expected);
        assert_eq!(t.presses(), expected);
    }
}

#[test]
fn released_button_reports_nothing() {
    let mut t = ButtonTask::new(ButtonId::Btn4, 0, 100);
    assert_eq!(t.run_held(1000, false), 0);
    assert_eq!(t.presses(), 0);
    assert_eq!(t.ready_at(), 1000);
}
