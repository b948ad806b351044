//! Core logic of a system-tray display-resolution switcher.
//!
//! The library holds everything that can be reasoned about as plain data:
//! the display-mode record and its filtering policy, the favorite/other
//! classification, menu-label formatting, the menu plan, and the control
//! loop's state machine. The surrounding binary queries the operating
//! system for the raw mode table, draws the tray menu, and runs the
//! channel and the loop, feeding this library plain values.

pub mod classify;
pub mod control;
pub mod label;
pub mod menu;
pub mod modes;
