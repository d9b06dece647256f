//! Error kinds surfaced by the caching and dispatch layer.

use vstd::prelude::*;

verus! {

/// Why development-mode include expansion of a shader source failed.
///
/// Carried inside [`GpuError::IncludeResolutionFailure`]. The caller recovers
/// from this kind locally by falling back to the embedded source; it is never
/// surfaced by a dispatch call.
#[derive(Debug, Clone, PartialEq, Eq)]
pub enum IncludeFail {
    /// An include path was reached again while it was still being expanded,
    /// directly or through a chain of includes.
    Circular { path: Vec<u8> },
    /// An include directive named a file that none of the search directories
    /// provides.
    NotFound { name: Vec<u8> },
}

/// A typed failure of one stage of the caching or dispatch protocol.
///
/// A dispatch call either fully completes or reports exactly one of these;
/// there is no partial success.
#[derive(Debug, Clone, PartialEq, Eq)]
pub enum GpuError {
    /// A required handle (device, queue, or one of the three data buffers)
    /// was missing. Fatal to the call; nothing is allocated, compiled or
    /// submitted.
    InvalidHandle,
    /// The native allocation was refused. Fatal; surfaced to the caller.
    AllocationFailure,
    /// Shader compilation was rejected by the backend, after the automatic
    /// retry without target-architecture hints. The diagnostic text comes
    /// from the backend.
    CompileFailure { diagnostic: Vec<u8> },
    /// Development-mode source re-flattening failed; recovered locally by
    /// the kernel cache, which falls back to the embedded source.
    IncludeResolutionFailure { fail: IncludeFail },
    /// The launch submission was rejected by the backend.
    DispatchFailure { diagnostic: Vec<u8> },
}

} // verus!
