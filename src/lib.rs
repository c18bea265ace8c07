//! Named indicator LEDs on a small board: a registry that owns one output
//! pin per LED, whole-board patterns, and the two-frame blink sequencer.
use vstd::prelude::*;

pub mod led;
pub mod registry;
pub mod pattern;
pub mod sequencer;

verus! {

} // verus!
