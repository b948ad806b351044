//! The display-mode record, the fixed filtering policy, and the command
//! type carried from menu activations to the control loop.

use vstd::prelude::*;

verus! {

/// How the display hardware presents a mode whose resolution is below the
/// panel's native one. Only modes with the default behaviour are offered.
#[derive(Clone, Copy, Debug, PartialEq, Eq, Structural)]
pub enum ScalingMode {
    /// The driver's default output behaviour.
    Default,
    /// The image is stretched to fill the panel.
    Stretch,
    /// The image is centered on the panel.
    Center,
    /// Any other fixed-output value the driver reports.
    Unknown,
}

/// One display mode as reported by the operating system's enumeration,
/// reduced to the fields the core logic reads.
///
/// `os_index` stands for the opaque OS-specific payload: it is the
/// zero-based position of this record in the enumeration, and the binary
/// uses it to recover the full OS record when the mode is applied. A
/// `DisplayMode` is an immutable snapshot; menu items hold their own copy.
#[derive(Clone, Copy, Debug, PartialEq, Eq, Structural)]
pub struct DisplayMode {
    /// Width in pixels.
    pub width: u32,
    /// Height in pixels.
    pub height: u32,
    /// Refresh rate in hertz.
    pub refresh_rate: u32,
    /// Fixed-output (scaling) behaviour of the mode.
    pub scaling: ScalingMode,
    /// Position of the record in the OS enumeration; the handle through
    /// which the full OS record is recovered when the mode is applied.
    pub os_index: u32,
}

/// A user intent sent from a menu-item activation to the control loop.
#[derive(Clone, Copy, Debug, PartialEq, Eq, Structural)]
pub enum Command {
    /// Leave the control loop and end the process.
    Quit,
    /// Apply the captured display mode.
    SwitchTo(DisplayMode),
}

/// The resolution/refresh-rate triple of a mode, the identity under which
/// the favorites list names modes.
pub open spec fn triple_of(m: DisplayMode) -> (u32, u32, u32) {
    (m.width, m.height, m.refresh_rate)
}

/// The fixed filtering policy: a mode is offered iff it refreshes at 60 Hz
/// and keeps the default output scaling.
pub open spec fn spec_keeps(m: DisplayMode) -> bool {
    m.refresh_rate == 60 && m.scaling is Default
}

/// Executable form of the filtering policy.
pub fn keeps(m: &DisplayMode) -> (b: bool)
    ensures
        b == spec_keeps(*m),
{
    m.refresh_rate == 60 && m.scaling == ScalingMode::Default
}

} // verus!
