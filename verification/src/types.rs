//! Plain-value records exchanged with the host: the per-dispatch
//! configuration, the fixed transition parameter block, launch sizes and
//! timing results.

use vstd::prelude::*;

verus! {

/// A three-dimensional size in the shape Metal-style hosts expect for
/// thread-group dimensions.
#[derive(Debug, Clone, Copy, PartialEq, Eq, Structural)]
pub struct MTLSize {
    pub width: usize,
    pub height: usize,
    pub depth: usize,
}

/// The per-dispatch configuration record a host hands in.
///
/// Every handle field is opaque: an address-sized integer this layer never
/// dereferences, only passes through to capability calls and compares for
/// cache-key equality. The value `0` stands for a missing handle.
///
/// `progress` carries the transition-progress scalar as its raw bit pattern;
/// this layer never interprets it, only forwards it unchanged.
#[derive(Debug, Clone, Copy)]
pub struct Configuration {
    pub device_handle: usize,
    /// Optional driver context; required by some backends, absent on others.
    pub context_handle: Option<usize>,
    pub command_queue_handle: usize,
    pub outgoing_data: usize,
    pub incoming_data: usize,
    pub dest_data: usize,
    pub outgoing_pitch_px: i32,
    pub incoming_pitch_px: i32,
    pub dest_pitch_px: i32,
    pub width: u32,
    pub height: u32,
    /// Selects the half-precision member of a compiled kernel pair.
    pub is16f: bool,
    /// Raw bit pattern of the progress scalar in `[0, 1]`.
    pub progress: u32,
}

impl Configuration {
    /// All handles a dispatch requires are present: the device, the command
    /// queue, and the three data buffers.
    pub open spec fn valid(self) -> bool {
        &&& self.device_handle != 0
        &&& self.command_queue_handle != 0
        &&& self.outgoing_data != 0
        &&& self.incoming_data != 0
        &&& self.dest_data != 0
    }

    /// Checks [`Configuration::valid`] at run time.
    pub fn is_valid(&self) -> (r: bool)
        ensures
            r == self.valid(),
    {
        self.device_handle != 0 && self.command_queue_handle != 0 && self.outgoing_data != 0
            && self.incoming_data != 0 && self.dest_data != 0
    }
}

/// The fixed-layout transition parameter block bound into argument slot 3 of
/// every launch. Built fresh from the configuration on each dispatch, never
/// cached.
#[derive(Debug, Clone, Copy, PartialEq, Eq, Structural)]
pub struct TransitionParams {
    pub out_pitch: u32,
    pub in_pitch: u32,
    pub dest_pitch: u32,
    pub width: u32,
    pub height: u32,
    /// Raw bit pattern of the progress scalar, forwarded unchanged from the
    /// configuration.
    pub progress: u32,
}

/// What [`TransitionParams`] a given configuration yields.
pub open spec fn transition_of(c: Configuration) -> TransitionParams {
    TransitionParams {
        out_pitch: c.outgoing_pitch_px as u32,
        in_pitch: c.incoming_pitch_px as u32,
        dest_pitch: c.dest_pitch_px as u32,
        width: c.width,
        height: c.height,
        progress: c.progress,
    }
}

impl TransitionParams {
    /// Builds the parameter block for one dispatch of `c`.
    pub fn from_config(c: &Configuration) -> (r: TransitionParams)
        ensures
            r == transition_of(*c),
    {
        TransitionParams {
            out_pitch: c.outgoing_pitch_px as u32,
            in_pitch: c.incoming_pitch_px as u32,
            dest_pitch: c.dest_pitch_px as u32,
            width: c.width,
            height: c.height,
            progress: c.progress,
        }
    }
}

/// Elapsed times of one completed dispatch.
///
/// CPU wall-clock time is always reported; GPU-side time is best effort and
/// omitted when the backend's timing query fails, without failing the
/// dispatch.
#[derive(Debug, Clone, Copy, PartialEq, Eq)]
pub struct DispatchTiming {
    pub cpu_micros: u64,
    pub gpu_micros: Option<u64>,
}

} // verus!
