//! Peripheral resources and the state they keep between ticks.

use vstd::prelude::*;

pub mod clock;
pub mod door;
pub mod keypad;
pub mod nfc;
pub mod terminal;

verus! {

/// Whether a device is to stop after the command it has just handled.
#[derive(Debug, Copy, Clone, PartialEq, Eq, Structural)]
pub struct Shutdown(pub bool);

} // verus!
