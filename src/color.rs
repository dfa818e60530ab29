//! Colours, and the corrections applied before a frame goes to the strip.

use vstd::prelude::*;

verus! {

/// One pixel as the strip receives it.
#[derive(Clone, Copy, PartialEq, Eq, Structural, Debug)]
pub struct Rgb {
    pub r: u8,
    pub g: u8,
    pub b: u8,
}

/// A colour as hue, saturation and value, each over the full byte range.
#[derive(Clone, Copy, PartialEq, Eq, Structural, Debug)]
pub struct Hsv {
    pub hue: u8,
    pub sat: u8,
    pub val: u8,
}

/// The red, green and blue bytes that `smart_leds::hsv::hsv2rgb` gives for a
/// hue, saturation and value.
pub uninterp spec fn hsv_rgb_of(hue: u8, sat: u8, val: u8) -> (u8, u8, u8);

/// The byte that the gamma table of `smart_leds::gamma` gives for a linear byte.
pub uninterp spec fn gamma_of(c: u8) -> u8;

pub open spec fn rgb_of_hsv(c: Hsv) -> Rgb {
    let t = hsv_rgb_of(c.hue, c.sat, c.val);
    Rgb { r: t.0, g: t.1, b: t.2 }
}

pub open spec fn gamma_px(p: Rgb) -> Rgb {
    Rgb { r: gamma_of(p.r), g: gamma_of(p.g), b: gamma_of(p.b) }
}

/// One channel scaled down to a brightness level: `c * (level + 1) / 256`.
pub open spec fn dim_of(c: u8, level: u8) -> u8 {
    (c as int * (level as int + 1) / 256) as u8
}

pub open spec fn dim_px(p: Rgb, level: u8) -> Rgb {
    Rgb { r: dim_of(p.r, level), g: dim_of(p.g, level), b: dim_of(p.b, level) }
}

/// What the strip shows for a linear pixel: gamma first, then the brightness cap.
pub open spec fn corrected_px(p: Rgb, level: u8) -> Rgb {
    dim_px(gamma_px(p), level)
}

pub open spec fn within(p: Rgb, level: u8) -> bool {
    p.r <= level && p.g <= level && p.b <= level
}

/// Relies on `smart_leds::hsv::hsv2rgb`: a function of the three bytes alone.
#[verifier::external_body]
fn hsv2rgb_call(c: Hsv) -> (r: Rgb)
    ensures
        (r.r, r.g, r.b) == hsv_rgb_of(c.hue, c.sat, c.val),
{
    let o = smart_leds::hsv::hsv2rgb(smart_leds::hsv::Hsv { hue: c.hue, sat: c.sat, val: c.val });
    Rgb { r: o.r, g: o.g, b: o.b }
}

/// Relies on `smart_leds::gamma`: each channel of each pixel goes through one
/// fixed table, whose first entry is 0 and whose entries never decrease.
#[verifier::external_body]
fn gamma_call(f: &Vec<Rgb>) -> (r: Vec<Rgb>)
    ensures
        r@.len() == f@.len(),
        forall|i: int| 0 <= i < f@.len() ==> r@[i] == gamma_px(#[trigger] f@[i]),
        forall|i: int| 0 <= i < f@.len() ==> (#[trigger] f@[i]).r == 0 ==> r@[i].r == 0,
        forall|i: int| 0 <= i < f@.len() ==> (#[trigger] f@[i]).g == 0 ==> r@[i].g == 0,
        forall|i: int| 0 <= i < f@.len() ==> (#[trigger] f@[i]).b == 0 ==> r@[i].b == 0,
        forall|i: int, d: u8|
            0 <= i < f@.len() && d <= (#[trigger] f@[i]).r ==> #[trigger] gamma_of(d) <= r@[i].r,
        forall|i: int, d: u8|
            0 <= i < f@.len() && d <= (#[trigger] f@[i]).g ==> #[trigger] gamma_of(d) <= r@[i].g,
        forall|i: int, d: u8|
            0 <= i < f@.len() && d <= (#[trigger] f@[i]).b ==> #[trigger] gamma_of(d) <= r@[i].b,
{
    smart_leds::gamma(f.iter().map(|p| smart_leds::RGB8 { r: p.r, g: p.g, b: p.b }))
        .map(|o| Rgb { r: o.r, g: o.g, b: o.b })
        .collect()
}

/// Relies on `smart_leds::brightness`: each channel `c` of each pixel becomes
/// `c * (level + 1) / 256`, computed in `u16`.
#[verifier::external_body]
fn brightness_call(f: &Vec<Rgb>, level: u8) -> (r: Vec<Rgb>)
    ensures
        r@ == f@.map_values(|p: Rgb| dim_px(p, level)),
{
    smart_leds::brightness(f.iter().map(|p| smart_leds::RGB8 { r: p.r, g: p.g, b: p.b }), level)
        .map(|o| Rgb { r: o.r, g: o.g, b: o.b })
        .collect()
}

impl Hsv {
    /// The fully saturated, full brightness colour of a hue.
    pub fn vivid(hue: u8) -> (r: Hsv)
        ensures
            r == (Hsv { hue, sat: 255, val: 255 }),
    {
        Hsv { hue, sat: 255, val: 255 }
    }

    /// The colour in red, green and blue.
    pub fn to_rgb(self) -> (r: Rgb)
        ensures
            r == rgb_of_hsv(self),
    {
        hsv2rgb_call(self)
    }
}

/// A channel never exceeds the brightness level once capped, and a dark
/// channel stays dark.
pub proof fn lemma_dim_bounded(c: u8, level: u8)
    ensures
        dim_of(c, level) <= level,
        c == 0 ==> dim_of(c, level) == 0,
{
    assert(c as int * (level as int + 1) <= 255 * (level as int + 1)) by (nonlinear_arith)
        requires c <= 255, level >= 0;
    assert(c as int * (level as int + 1) / 256 <= level as int) by (nonlinear_arith)
        requires c as int * (level as int + 1) <= 255 * (level as int + 1), level <= 255;
    assert(c as int * (level as int + 1) >= 0) by (nonlinear_arith)
        requires c >= 0, level >= 0;
}

/// The brightness cap keeps the order of channel values.
pub proof fn lemma_dim_monotonic(a: u8, b: u8, level: u8)
    requires
        a <= b,
    ensures
        dim_of(a, level) <= dim_of(b, level),
{
    assert(a as int * (level as int + 1) <= b as int * (level as int + 1)) by (nonlinear_arith)
        requires a <= b, level >= 0;
    assert(a as int * (level as int + 1) / 256 <= b as int * (level as int + 1) / 256) by (nonlinear_arith)
        requires a as int * (level as int + 1) <= b as int * (level as int + 1), a >= 0, level >= 0;
    assert(b as int * (level as int + 1) / 256 <= level as int) by (nonlinear_arith)
        requires b <= 255, level <= 255;
    assert(a as int * (level as int + 1) / 256 >= 0) by (nonlinear_arith)
        requires a >= 0, level >= 0;
}

/// Whatever the colour, no channel of the corrected pixel exceeds the cap.
pub proof fn lemma_corrected_within(p: Rgb, level: u8)
    ensures
        within(corrected_px(p, level), level),
{
    let g = gamma_px(p);
    lemma_dim_bounded(g.r, level);
    lemma_dim_bounded(g.g, level);
    lemma_dim_bounded(g.b, level);
}

/// Every pixel of the frame scaled down to a brightness level.
pub fn dim_frame(f: &Vec<Rgb>, level: u8) -> (r: Vec<Rgb>)
    ensures
        r@.len() == f@.len(),
        forall|i: int| 0 <= i < f@.len() ==> r@[i] == dim_px(#[trigger] f@[i], level),
        forall|i: int| 0 <= i < r@.len() ==> within(#[trigger] r@[i], level),
{
    let r = brightness_call(f, level);
    assert forall|i: int| 0 <= i < r@.len() implies within(#[trigger] r@[i], level) by {
        let p = f@[i];
        lemma_dim_bounded(p.r, level);
        lemma_dim_bounded(p.g, level);
        lemma_dim_bounded(p.b, level);
    }
    r
}

/// Gamma correction followed by the brightness cap, pixel by pixel. The
/// result never exceeds the cap, a dark channel stays dark, and a channel that
/// is no brighter than another in the input is no brighter in the output.
pub fn correct_frame(f: &Vec<Rgb>, level: u8) -> (r: Vec<Rgb>)
    ensures
        r@ == f@.map_values(|p: Rgb| corrected_px(p, level)),
        forall|i: int| 0 <= i < r@.len() ==> within(#[trigger] r@[i], level),
        forall|i: int| 0 <= i < f@.len() ==> (#[trigger] f@[i]).r == 0 ==> r@[i].r == 0,
        forall|i: int| 0 <= i < f@.len() ==> (#[trigger] f@[i]).g == 0 ==> r@[i].g == 0,
        forall|i: int| 0 <= i < f@.len() ==> (#[trigger] f@[i]).b == 0 ==> r@[i].b == 0,
        forall|i: int, j: int|
            0 <= i < f@.len() && 0 <= j < f@.len() && f@[i].r <= f@[j].r ==> #[trigger] r@[i].r
                <= #[trigger] r@[j].r,
        forall|i: int, j: int|
            0 <= i < f@.len() && 0 <= j < f@.len() && f@[i].g <= f@[j].g ==> #[trigger] r@[i].g
                <= #[trigger] r@[j].g,
        forall|i: int, j: int|
            0 <= i < f@.len() && 0 <= j < f@.len() && f@[i].b <= f@[j].b ==> #[trigger] r@[i].b
                <= #[trigger] r@[j].b,
{
    let g = gamma_call(f);
    let r = dim_frame(&g, level);
    assert forall|i: int| 0 <= i < f@.len() && (#[trigger] f@[i]).r == 0 implies r@[i].r == 0 by {
        lemma_dim_bounded(g@[i].r, level);
    }
    assert forall|i: int| 0 <= i < f@.len() && (#[trigger] f@[i]).g == 0 implies r@[i].g == 0 by {
        lemma_dim_bounded(g@[i].g, level);
    }
    assert forall|i: int| 0 <= i < f@.len() && (#[trigger] f@[i]).b == 0 implies r@[i].b == 0 by {
        lemma_dim_bounded(g@[i].b, level);
    }
    assert forall|i: int, j: int|
        0 <= i < f@.len() && 0 <= j < f@.len() && f@[i].r <= f@[j].r implies #[trigger] r@[i].r
            <= #[trigger] r@[j].r by {
        assert(gamma_of(f@[i].r) <= g@[j].r);
        lemma_dim_monotonic(g@[i].r, g@[j].r, level);
    }
    assert forall|i: int, j: int|
        0 <= i < f@.len() && 0 <= j < f@.len() && f@[i].g <= f@[j].g implies #[trigger] r@[i].g
            <= #[trigger] r@[j].g by {
        assert(gamma_of(f@[i].g) <= g@[j].g);
        lemma_dim_monotonic(g@[i].g, g@[j].g, level);
    }
    assert forall|i: int, j: int|
        0 <= i < f@.len() && 0 <= j < f@.len() && f@[i].b <= f@[j].b implies #[trigger] r@[i].b
            <= #[trigger] r@[j].b by {
        assert(gamma_of(f@[i].b) <= g@[j].b);
        lemma_dim_monotonic(g@[i].b, g@[j].b, level);
    }
    assert(r@ =~= f@.map_values(|p: Rgb| corrected_px(p, level)));
    r
}

/// A frame of `n` pixels that all show one colour.
pub fn fill_frame(c: Rgb, n: usize) -> (r: Vec<Rgb>)
    ensures
        r@ == Seq::new(n as nat, |i: int| c),
{
    let mut r: Vec<Rgb> = Vec::with_capacity(n);
    let mut i: usize = 0;
    while i < n
        invariant
            i <= n,
            r@ == Seq::new(i as nat, |k: int| c),
        decreases n - i,
    {
        r.push(c);
        i = i + 1;
        assert(r@ =~= Seq::new(i as nat, |k: int| c));
    }
    r
}

/// The corrected frame of `n` pixels that all show one linear colour.
pub open spec fn broadcast(c: Rgb, n: nat, level: u8) -> Seq<Rgb> {
    Seq::new(n, |i: int| corrected_px(c, level))
}

/// One linear colour on every one of `n` pixels, gamma corrected and capped.
pub fn frame_for_rgb(c: Rgb, n: usize, level: u8) -> (r: Vec<Rgb>)
    ensures
        r@ == broadcast(c, n as nat, level),
        r@.len() == n,
        forall|i: int, j: int| 0 <= i < r@.len() && 0 <= j < r@.len() ==> r@[i] == r@[j],
        forall|i: int| 0 <= i < r@.len() ==> within(#[trigger] r@[i], level),
{
    let f = fill_frame(c, n);
    let r = correct_frame(&f, level);
    assert(r@ =~= broadcast(c, n as nat, level));
    r
}

} // verus!
