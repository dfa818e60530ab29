//! The rainbow on the LED strip: one hue at a time, shown on every pixel,
//! advancing by one step per frame and wrapping after a full sweep.

use vstd::prelude::*;
use crate::color::{Hsv, Rgb, broadcast, frame_for_rgb, rgb_of_hsv, within, lemma_corrected_within};
use crate::periodic::Periodic;

verus! {

/// Pixels on the strip of the board.
pub const STRIP_LEN: usize = 36;

/// The brightness cap applied to every frame, out of 255.
pub const BRIGHTNESS_CEILING: u8 = 15;

/// Frames in one full sweep of the hue.
pub const SWEEP_LEN: usize = 256;

/// Milliseconds between two frames.
pub const STEP_INTERVAL_MS: u64 = 15;

pub open spec fn next_hue(h: u8) -> u8 {
    ((h as int + 1) % 256) as u8
}

/// The hue after `k` steps from `h`.
pub open spec fn hue_after(h: u8, k: nat) -> u8
    decreases k,
{
    if k == 0 {
        h
    } else {
        next_hue(hue_after(h, (k - 1) as nat))
    }
}

/// The frame shown for a hue: the vivid colour of the hue on each of `n`
/// pixels, gamma corrected and capped at `level`.
pub open spec fn frame_of(hue: u8, n: nat, level: u8) -> Seq<Rgb> {
    broadcast(rgb_of_hsv(Hsv { hue, sat: 255, val: 255 }), n, level)
}

/// The animation cursor of a strip of `strip_len` pixels.
pub struct ColorAnimator {
    hue: u8,
    strip_len: usize,
    level: u8,
}

impl ColorAnimator {
    pub closed spec fn hue_spec(&self) -> u8 {
        self.hue
    }

    pub closed spec fn strip_len_spec(&self) -> nat {
        self.strip_len as nat
    }

    pub closed spec fn level_spec(&self) -> u8 {
        self.level
    }

    /// The frame for the current hue.
    pub open spec fn current_frame(&self) -> Seq<Rgb> {
        frame_of(self.hue_spec(), self.strip_len_spec(), self.level_spec())
    }

    /// An animator at hue 0 with the board's brightness cap.
    pub fn new(strip_len: usize) -> (r: ColorAnimator)
        ensures
            r.hue_spec() == 0,
            r.strip_len_spec() == strip_len,
            r.level_spec() == BRIGHTNESS_CEILING,
    {
        ColorAnimator { hue: 0, strip_len, level: BRIGHTNESS_CEILING }
    }

    /// An animator at a given hue and brightness cap.
    pub fn with_hue(strip_len: usize, hue: u8, level: u8) -> (r: ColorAnimator)
        ensures
            r.hue_spec() == hue,
            r.strip_len_spec() == strip_len,
            r.level_spec() == level,
    {
        ColorAnimator { hue, strip_len, level }
    }

    pub fn hue(&self) -> (r: u8)
        ensures
            r == self.hue_spec(),
    {
        self.hue
    }

    pub fn strip_len(&self) -> (r: usize)
        ensures
            r == self.strip_len_spec(),
    {
        self.strip_len
    }

    pub fn level(&self) -> (r: u8)
        ensures
            r == self.level_spec(),
    {
        self.level
    }

    /// The frame for the current hue: one entry per pixel, all equal, none
    /// brighter than the cap.
    pub fn frame(&self) -> (r: Vec<Rgb>)
        ensures
            r@ == self.current_frame(),
            r@.len() == self.strip_len_spec(),
            forall|i: int, j: int| 0 <= i < r@.len() && 0 <= j < r@.len() ==> r@[i] == r@[j],
            forall|i: int| 0 <= i < r@.len() ==> within(#[trigger] r@[i], self.level_spec()),
    {
        let c = Hsv::vivid(self.hue).to_rgb();
        frame_for_rgb(c, self.strip_len, self.level)
    }

    /// One animation step: the frame for the current hue, and whether the
    /// step wrapped the hue back to 0, completing a sweep.
    pub fn step(&mut self) -> (r: (Vec<Rgb>, bool))
        ensures
            r.0@ == old(self).current_frame(),
            final(self).hue_spec() == next_hue(old(self).hue_spec()),
            final(self).strip_len_spec() == old(self).strip_len_spec(),
            final(self).level_spec() == old(self).level_spec(),
            r.1 == (old(self).hue_spec() == 255),
    {
        let f = self.frame();
        let wrapped = self.hue == 255;
        self.hue = if wrapped { 0 } else { self.hue + 1 };
        (f, wrapped)
    }

    /// `k` animation steps: the frames shown, one per step, in order.
    pub fn run_steps(&mut self, k: usize) -> (r: Vec<Vec<Rgb>>)
        ensures
            r@.len() == k,
            forall|i: int|
                0 <= i < k ==> (#[trigger] r@[i])@ == frame_of(
                    hue_after(old(self).hue_spec(), i as nat),
                    old(self).strip_len_spec(),
                    old(self).level_spec(),
                ),
            final(self).hue_spec() == hue_after(old(self).hue_spec(), k as nat),
            final(self).strip_len_spec() == old(self).strip_len_spec(),
            final(self).level_spec() == old(self).level_spec(),
    {
        let ghost h0 = self.hue_spec();
        let ghost n = self.strip_len_spec();
        let ghost level = self.level_spec();
        let mut r: Vec<Vec<Rgb>> = Vec::with_capacity(k);
        let mut i: usize = 0;
        while i < k
            invariant
                i <= k,
                r@.len() == i,
                self.hue_spec() == hue_after(h0, i as nat),
                self.strip_len_spec() == n,
                self.level_spec() == level,
                forall|j: int|
                    0 <= j < i ==> (#[trigger] r@[j])@ == frame_of(hue_after(h0, j as nat), n, level),
            decreases k - i,
        {
            let (f, _) = self.step();
            r.push(f);
            i = i + 1;
        }
        r
    }

    /// One full sweep: a frame for each of the 256 hues from the current one
    /// on, after which the hue is back where it started.
    pub fn sweep(&mut self) -> (r: Vec<Vec<Rgb>>)
        ensures
            r@.len() == SWEEP_LEN,
            forall|i: int|
                0 <= i < SWEEP_LEN ==> (#[trigger] r@[i])@ == frame_of(
                    ((old(self).hue_spec() as int + i) % 256) as u8,
                    old(self).strip_len_spec(),
                    old(self).level_spec(),
                ),
            final(self).hue_spec() == old(self).hue_spec(),
            final(self).strip_len_spec() == old(self).strip_len_spec(),
            final(self).level_spec() == old(self).level_spec(),
    {
        let ghost h0 = self.hue_spec();
        let r = self.run_steps(SWEEP_LEN);
        proof {
            lemma_hue_after(h0, SWEEP_LEN as nat);
            assert forall|i: int| 0 <= i < SWEEP_LEN implies #[trigger] hue_after(h0, i as nat) == ((h0 as int
                + i) % 256) as u8 by {
                lemma_hue_after(h0, i as nat);
            }
        }
        r
    }
}

/// After `k` steps the hue is the starting hue plus `k`, modulo 256.
pub proof fn lemma_hue_after(h: u8, k: nat)
    ensures
        hue_after(h, k) as int == (h as int + k) % 256,
    decreases k,
{
    if k > 0 {
        lemma_hue_after(h, (k - 1) as nat);
    }
}

/// The hue is back at its start after `k` steps exactly when `k` is a whole
/// number of sweeps: a sweep takes 256 frames, never fewer.
pub proof fn lemma_sweep_period(h: u8, k: nat)
    ensures
        hue_after(h, k) == h <==> k % 256 == 0,
{
    lemma_hue_after(h, k);
}

/// The frame of any hue has one entry per pixel, all equal, none brighter
/// than the cap.
pub proof fn lemma_frame_broadcast(hue: u8, n: nat, level: u8)
    ensures
        frame_of(hue, n, level).len() == n,
        forall|i: int, j: int|
            0 <= i < n && 0 <= j < n ==> frame_of(hue, n, level)[i] == frame_of(hue, n, level)[j],
        forall|i: int| 0 <= i < n ==> within(#[trigger] frame_of(hue, n, level)[i], level),
{
    lemma_corrected_within(rgb_of_hsv(Hsv { hue, sat: 255, val: 255 }), level);
}

/// The panel task: the animator, stepped once per interval, with a count of
/// completed sweeps.
pub struct PanelTask {
    animator: ColorAnimator,
    timer: Periodic,
    laps: u64,
}

impl PanelTask {
    pub closed spec fn animator_spec(&self) -> ColorAnimator {
        self.animator
    }

    pub closed spec fn timer_spec(&self) -> Periodic {
        self.timer
    }

    pub closed spec fn laps_spec(&self) -> int {
        self.laps as int
    }

    pub open spec fn wf(&self) -> bool {
        &&& self.timer_spec().wf()
        &&& 0 <= self.laps_spec() <= self.timer_spec().fired_spec()
    }

    /// A panel task due first at `start`, stepping every `interval`
    /// milliseconds.
    pub fn new(animator: ColorAnimator, start: u64, interval: u64) -> (r: PanelTask)
        requires
            interval > 0,
        ensures
            r.wf(),
            r.animator_spec() == animator,
            r.timer_spec().start_spec() == start,
            r.timer_spec().period_spec() == interval,
            r.timer_spec().ready_at_spec() == start,
            r.timer_spec().fired_spec() == 0,
            r.laps_spec() == 0,
    {
        PanelTask { animator, timer: Periodic::new(start, interval), laps: 0 }
    }

    pub fn animator(&self) -> (r: &ColorAnimator)
        ensures
            *r == self.animator_spec(),
    {
        &self.animator
    }

    /// The time at which the task is next due.
    pub fn ready_at(&self) -> (r: u64)
        ensures
            r == self.timer_spec().ready_at_spec(),
    {
        self.timer.ready_at()
    }

    /// Milliseconds between two wake-ups.
    pub fn period(&self) -> (r: u64)
        ensures
            r == self.timer_spec().period_spec(),
    {
        self.timer.period()
    }

    /// How many sweeps have been completed.
    pub fn laps(&self) -> (r: u64)
        ensures
            r == self.laps_spec(),
    {
        self.laps
    }

    /// One wake-up: the frame to write to the strip, and whether this step
    /// completed a sweep.
    pub fn wake(&mut self) -> (r: (Vec<Rgb>, bool))
        requires
            old(self).wf(),
            old(self).timer_spec().ready_at_spec() + old(self).timer_spec().period_spec()
                <= u64::MAX,
        ensures
            final(self).wf(),
            r.0@ == old(self).animator_spec().current_frame(),
            r.1 == (old(self).animator_spec().hue_spec() == 255),
            final(self).animator_spec().hue_spec() == next_hue(
                old(self).animator_spec().hue_spec(),
            ),
            final(self).animator_spec().strip_len_spec()
                == old(self).animator_spec().strip_len_spec(),
            final(self).animator_spec().level_spec() == old(self).animator_spec().level_spec(),
            final(self).laps_spec() == old(self).laps_spec() + (if r.1 { 1int } else { 0 }),
            final(self).timer_spec().start_spec() == old(self).timer_spec().start_spec(),
            final(self).timer_spec().period_spec() == old(self).timer_spec().period_spec(),
            final(self).timer_spec().ready_at_spec() == old(self).timer_spec().ready_at_spec()
                + old(self).timer_spec().period_spec(),
            final(self).timer_spec().fired_spec() == old(self).timer_spec().fired_spec() + 1,
    {
        let r = self.animator.step();
        self.timer.fire();
        if r.1 {
            self.laps = self.laps + 1;
        }
        r
    }
}

} // verus!
