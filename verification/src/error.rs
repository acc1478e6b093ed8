use vstd::prelude::*;

use crate::pipeline::KernelStage;

verus! {

/// Every failure the pipeline can surface. Each is fatal for the render in
/// which it occurs: there are no internal retries and no partial results.
#[derive(Clone, Copy, Debug, PartialEq, Eq, Structural)]
pub enum RenderError {
    /// No compute-capable device was found at acquisition.
    DeviceUnavailable,
    /// A kernel source failed to compile; carries the stage it belonged to.
    KernelCompileError(KernelStage),
    /// Device-side resource creation failed (e.g. memory exhaustion).
    AllocationFailure,
    /// The map-for-read request reported failure, or the mapped bytes did not
    /// have the promised length.
    ReadbackFailed,
    /// A bind group does not agree with a pipeline's declared binding layout.
    LayoutMismatch,
}

} // verus!
