//! Identification of the GPU framework a host runs this layer on.

use vstd::prelude::*;

verus! {

/// The GPU framework behind a host-supplied device handle.
#[derive(Debug, Clone, Copy, PartialEq, Eq, Hash, Structural)]
pub enum GPUFramework {
    Metal,
    Cuda,
    OpenCL,
    Other(u32),
}

impl GPUFramework {
    /// Decodes the framework selector a video host passes alongside its
    /// device handles.
    pub fn from_premiere(v: u32) -> (r: Self)
        ensures
            r == (match v {
                0u32 => GPUFramework::Cuda,
                1u32 => GPUFramework::OpenCL,
                2u32 => GPUFramework::Metal,
                _ => GPUFramework::Other(v),
            }),
    {
        match v {
            0 => Self::Cuda,
            1 => Self::OpenCL,
            2 => Self::Metal,
            _ => Self::Other(v),
        }
    }
}

} // verus!
