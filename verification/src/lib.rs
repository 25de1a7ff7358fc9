//! A cooperative, timer-driven task core: a fixed-capacity deadline
//! scheduler, a blinking digital output, and a decrementing
//! hour/minute/second countdown rendered as text lines.
//!
//! Hardware bring-up and the actual pin, bus and display drivers are
//! collaborators outside this crate; the library computes every decision
//! (what to toggle, what to draw, when each task fires next) on plain
//! values, so a thin host loop can carry the effects out.

pub mod countdown;
pub mod render;
pub mod scheduler;
pub mod system;
