//! Realistic Mouse Jiggler: the verified core of a desktop mouse jiggler.
//!
//! The library holds the decisions of the program (which movement to make,
//! what a key press means, how bindings are captured, how the window reacts)
//! and the text processing behind the license and credit pages. The desktop
//! shell around it performs the input/output those decisions call for.
use vstd::prelude::*;

pub mod app_state;
pub mod config;
pub mod events;
pub mod jiggler;
pub mod licenses;
pub mod linux_input;
pub mod mac_input;
pub mod palette;
pub mod platform;
pub mod screens;
pub mod icons;
pub mod input;
pub mod text;
pub mod tray;
pub mod windows_input;

verus! {

} // verus!
