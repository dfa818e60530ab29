use pixel_tasks::color::{correct_frame, dim_frame, fill_frame, frame_for_rgb, Hsv, Rgb};

fn px(r: u8, g: u8, b: u8) -> Rgb {
    Rgb { r, g, b }
}

#[test]
fn vivid_hues_convert_to_primaries() {
    assert_eq!(Hsv::vivid(0).to_rgb(), px(255, 0, 0));
    assert_eq!(Hsv::vivid(85).to_rgb(), px(0, 255, 0));
    assert_eq!(Hsv::vivid(170).to_rgb(), px(0, 0, 255));
}

#[test]
fn to_rgb_agrees_with_smart_leds() {
    for hue in 0..=255u8 {
        for &(sat, val) in &[(255u8, 255u8), (123, 35), (3, 138), (230, 42)] {
            let ours = Hsv { hue, sat, val }.to_rgb();
            let theirs = smart_leds::hsv::hsv2rgb(smart_leds::hsv::Hsv { hue, sat, val });
            assert_eq!(ours, px(theirs.r, theirs.g, theirs.b));
        }
    }
}

#[test]
fn dim_frame_scales_each_channel() {
    let f = vec![px(255, 128, 0), px(16, 15, 1)];
    let r = dim_frame(&f, 15);
    assert_eq!(r, vec![px(15, 8, 0), px(1, 0, 0)]);
    let full = dim_frame(&f, 255);
    assert_eq!(full, f);
}

#[test]
fn correct_frame_applies_gamma_then_cap() {
    let f = vec![px(128, 255, 0)];
    assert_eq!(correct_frame(&f, 255), vec![px(37, 255, 0)]);
    assert_eq!(correct_frame(&f, 15), vec![px(2, 15, 0)]);
}

#[test]
fn correct_frame_keeps_dark_channels_dark_and_caps_the_rest() {
    for hue in 0..=255u8 {
        let c = Hsv::vivid(hue).to_rgb();
        let out = correct_frame(&vec![c], 15);
        let o = out[0];
        assert!(o.r <= 15 && o.g <= 15 && o.b <= 15);
        if c.r == 0 {
            assert_eq!(o.r, 0);
        }
        if c.g == 0 {
            assert_eq!(o.g, 0);
        }
        if c.b == 0 {
            assert_eq!(o.b, 0);
        }
    }
    assert_eq!(correct_frame(&vec![px(0, 0, 0)], 15), vec![px(0, 0, 0)]);
}

#[test]
fn correct_frame_is_monotonic() {
    let f: Vec<Rgb> = (0..=255u8).map(|v| px(v, v, v)).collect();
    let out = correct_frame(&f, 15);
    for i in 1..out.len() {
        assert!(out[i - 1].r <= out[i].r);
        assert!(out[i - 1].g <= out[i].g);
        assert!(out[i - 1].b <= out[i].b);
    }
    assert_eq!(out[255], px(15, 15, 15));
}

#[test]
fn fill_frame_repeats_one_colour() {
    assert_eq!(fill_frame(px(1, 2, 3), 4), vec![px(1, 2, 3); 4]);
    assert!(fill_frame(px(1, 2, 3), 0).is_empty());
}

#[test]
fn frame_for_rgb_broadcasts_the_corrected_colour() {
    let f = frame_for_rgb(px(255, 0, 0), 36, 15);
    assert_eq!(f.len(), 36);
    assert!(f.iter().all(|p| *p == px(15, 0, 0)));
}
