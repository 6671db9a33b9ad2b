pub mod app;
pub mod backup;
pub mod device;
pub mod mesh;
pub mod shader;
pub mod texture;
pub mod types;

pub use app::DirectX11App;

use vstd::prelude::*;

verus! {

/// Failures that a frame can report to its caller instead of panicking.
#[derive(Clone, Copy, PartialEq, Eq, Structural, Debug)]
pub enum OverlayError {
    /// A tessellated primitive was of the paint-callback kind, which the
    /// renderer does not support; the frame reports this rather than
    /// completing silently with visually wrong output.
    UnsupportedPrimitive,
    /// `restore` was called with no snapshot captured by a prior `save`.
    RestoreWithoutSave,
}

} // verus!
