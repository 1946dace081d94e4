//! Configuration snapshot read once per attempt: gating and messaging flags,
//! and the capture/matching parameters.

use vstd::prelude::*;

verus! {

/// Gating and messaging flags (the `core` group of the configuration file).
#[derive(Clone, Copy, PartialEq, Eq, Structural, Debug)]
pub struct Core {
    pub detection_notice: bool,
    pub no_confirmation: bool,
    pub suppress_unknown: bool,
    pub suppress_timeout: bool,
    pub ignore_ssh: bool,
    pub ignore_closed_lid: bool,
    pub disabled: bool,
    pub use_cnn: bool,
}

/// Capture and matching parameters (the `video` group of the configuration
/// file). `certainty` is the matching threshold as an order-preserving
/// unsigned code of the recognizer's non-negative real threshold (see the
/// matcher module); smaller is stricter. `timeout` is in seconds.
#[derive(Clone, Copy, PartialEq, Eq, Structural, Debug)]
pub struct Video {
    pub certainty: u64,
    pub timeout: u64,
    pub device: usize,
    pub max_height: u32,
}

/// One immutable configuration snapshot.
#[derive(Clone, Copy, PartialEq, Eq, Structural, Debug)]
pub struct Config {
    pub core: Core,
    pub video: Video,
}

/// The face detector the recognizer should run with, chosen once per
/// attempt from the configuration.
#[derive(Clone, Copy, PartialEq, Eq, Structural, Debug)]
pub enum DetectorKind {
    /// The lighter, faster detector.
    Fast,
    /// The heavier, more accurate (neural-network) detector.
    Accurate,
}

/// Selects the detector for an attempt: the accurate detector exactly when
/// the configuration asks for it.
pub fn detector_choice(core: &Core) -> (r: DetectorKind)
    ensures
        r == (if core.use_cnn {
            DetectorKind::Accurate
        } else {
            DetectorKind::Fast
        }),
{
    if core.use_cnn {
        DetectorKind::Accurate
    } else {
        DetectorKind::Fast
    }
}

} // verus!
