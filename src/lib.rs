//! Cooperative LED and button tasks for a small microcontroller board: an
//! HSV rainbow animator for an addressable strip, a lock-step blinker for two
//! outputs, pollers for up to four buttons, and the deadline-ordered runtime
//! that interleaves them. Everything here is plain state and decisions; the
//! program around it drives the pins and the strip.

pub mod color;
pub mod periodic;
pub mod blink;
pub mod button;
pub mod animator;
pub mod runtime;
