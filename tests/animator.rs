use pixel_tasks::animator::{
    ColorAnimator, PanelTask, BRIGHTNESS_CEILING, STEP_INTERVAL_MS, STRIP_LEN, SWEEP_LEN,
};
use pixel_tasks::color::{frame_for_rgb, Hsv, Rgb};

fn expected_frame(hue: u8, n: usize, level: u8) -> Vec<Rgb> {
    frame_for_rgb(Hsv::vivid(hue).to_rgb(), n, level)
}

#[test]
fn new_animator_starts_at_hue_zero_with_the_board_cap() {
    let a = ColorAnimator::new(STRIP_LEN);
    assert_eq!(a.hue(), 0);
    assert_eq!(a.strip_len(), 36);
    assert_eq!(a.level(), 15);
    assert_eq!(BRIGHTNESS_CEILING, 15);
}

#[test]
fn hue_after_k_steps_wraps_modulo_256() {
    for &(h0, k) in &[(0u8, 0usize), (0, 1), (10, 300), (255, 1), (200, 56), (7, 512)] {
        let mut a = ColorAnimator::with_hue(3, h0, 15);
        a.run_steps(k);
        assert_eq!(a.hue() as usize, (h0 as usize + k) % 256);
    }
}

#[test]
fn full_sweep_emits_256_frames_and_returns_to_the_start() {
    let mut a = ColorAnimator::with_hue(4, 77, 15);
    let frames = a.sweep();
    assert_eq!(frames.len(), SWEEP_LEN);
    assert_eq!(a.hue(), 77);
    for (i, f) in frames.iter().enumerate() {
        assert_eq!(*f, expected_frame(((77 + i) % 256) as u8, 4, 15));
    }
    let mut b = ColorAnimator::with_hue(4, 77, 15);
    for k in 1..256 {
        b.step();
        assert_ne!(b.hue(), 77, "back after {} steps", k);
    }
    b.step();
    assert_eq!(b.hue(), 77);
}

#[test]
fn every_frame_has_n_identical_entries() {
    for hue in 0..=255u8 {
        let f = ColorAnimator::with_hue(STRIP_LEN, hue, 15).frame();
        assert_eq!(f.len(), STRIP_LEN);
        assert!(f.iter().all(|p| *p == f[0]));
        assert!(f[0].r <= 15 && f[0].g <= 15 && f[0].b <= 15);
    }
}

#[test]
fn three_pixels_from_hue_254_wrap_after_two_steps() {
    let mut a = ColorAnimator::with_hue(3, 254, BRIGHTNESS_CEILING);
    let (f0, lap0) = a.step();
    let (f1, lap1) = a.step();
    assert_eq!(a.hue(), 0);
    assert!(!lap0);
    assert!(lap1);
    assert_eq!(f0, expected_frame(254, 3, 15));
    assert_eq!(f1, expected_frame(255, 3, 15));
    let f = a.frame();
    assert_eq!(f, vec![Rgb { r: 15, g: 0, b: 0 }; 3]);
    assert_eq!(f, expected_frame(0, 3, 15));
}

#[test]
fn panel_task_counts_laps_and_moves_its_deadline() {
    let mut p = PanelTask::new(ColorAnimator::new(2), 0, STEP_INTERVAL_MS);
    for _ in 0..256 {
        p.wake();
    }
    assert_eq!(p.laps(), 1);
    assert_eq!(p.ready_at(), 256 * 15);
    assert_eq!(p.animator().hue(), 0);
}
