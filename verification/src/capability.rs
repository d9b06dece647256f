//! The capability a backend must supply: raw allocation, shader compilation,
//! kernel launch, geometry and timing queries.
//!
//! The native driver calls themselves are outside this layer. A capability's
//! observable history is modelled by [`CapState`]: every trait method states
//! exactly which call it appends to which log and that it touches nothing
//! else, so the caching and dispatch logic above can be verified for every
//! backend, while each backend adapts the calls to its native convention.

use crate::types::TransitionParams;
use vstd::prelude::*;

verus! {

/// One raw-buffer allocation request: `len` bytes on `device`, and the
/// handle that came back (`None` when the backend refused).
pub struct AllocCall {
    pub device: usize,
    pub len: u64,
    pub result: Option<usize>,
}

/// One compilation request: `source` compiled for `entry` on `device`, with
/// or without a target-architecture hint, and the kernel handle that came
/// back (`None` when the backend rejected the source).
pub struct CompileCall {
    pub device: usize,
    pub source: Seq<u8>,
    pub entry: Seq<char>,
    pub arch: Option<(u32, u32)>,
    pub result: Option<usize>,
}

/// One launch submission with its complete argument binding: the five fixed
/// argument slots (outgoing, incoming, destination, transition parameters,
/// user parameters, in that order), the launch geometry, and whether the
/// backend accepted it.
pub struct LaunchCall {
    pub device: usize,
    pub queue: usize,
    pub kernel: usize,
    pub grid_x: u32,
    pub grid_y: u32,
    pub block_x: u32,
    pub block_y: u32,
    pub outgoing: usize,
    pub incoming: usize,
    pub dest: usize,
    pub params: TransitionParams,
    pub user_params: Seq<u8>,
    pub ok: bool,
}

/// The observable history and fixed facts of one capability: every call made
/// through it, in order, plus the per-kernel preferred block shapes and
/// per-device architecture hints it reports.
pub struct CapState {
    pub allocs: Seq<AllocCall>,
    pub compiles: Seq<CompileCall>,
    pub launches: Seq<LaunchCall>,
    pub buffer_frees: Seq<usize>,
    pub kernel_unloads: Seq<usize>,
    /// Kernels for which the backend reports a hardware-preferred
    /// thread-group shape.
    pub preferred: Map<usize, (u32, u32)>,
    /// Devices for which the backend reports a target-architecture hint for
    /// compilation.
    pub arch: Map<usize, (u32, u32)>,
    /// GPU-reported elapsed time of the last completed submission, in
    /// microseconds, where the backend could measure one. Set by
    /// [`GpuCapability::launch`], reported by
    /// [`GpuCapability::elapsed_gpu_micros`].
    pub gpu_time: Option<u64>,
}

/// The handle a fallible backend call produced, if any.
pub open spec fn handle_of<E>(r: Result<usize, E>) -> Option<usize> {
    match r {
        Ok(h) => Some(h),
        Err(_) => None,
    }
}

/// What one backend must provide. Implementations adapt each operation to
/// their native object model; callers above rely only on these contracts.
///
/// Shared handles passed in are only ever read by the native side during the
/// call; the backend must not retain or mutate them afterwards.
pub trait GpuCapability: Sized {
    /// The calls made through this capability so far and the fixed facts it
    /// reports.
    spec fn state(&self) -> CapState;

    /// A monotonic clock reading, advanced (never rewound) by every call.
    spec fn clock(&self) -> u64;

    /// Allocates `length_bytes` raw bytes on `device`. Operates in raw
    /// bytes; never inspects the buffer's semantic shape. A returned handle
    /// is never the null handle `0`.
    fn allocate(&mut self, device: usize, length_bytes: u64) -> (r: Result<usize, ()>)
        ensures
            final(self).state() == (CapState {
                allocs: old(self).state().allocs.push(
                    AllocCall { device, len: length_bytes, result: handle_of(r) },
                ),
                ..old(self).state()
            }),
            final(self).clock() >= old(self).clock(),
            r matches Ok(h) ==> h != 0,
    ;

    /// Releases one buffer handle previously returned by
    /// [`GpuCapability::allocate`].
    fn free_buffer(&mut self, handle: usize)
        ensures
            final(self).state() == (CapState {
                buffer_frees: old(self).state().buffer_frees.push(handle),
                ..old(self).state()
            }),
            final(self).clock() >= old(self).clock(),
    ;

    /// Compiles `source` for entry point `entry` on `device` into one
    /// device-executable kernel, with an optional target-architecture hint.
    /// On rejection the error carries the backend's diagnostic text. A
    /// returned handle is never the null handle `0`.
    fn compile(&mut self, device: usize, source: &Vec<u8>, entry: &str, arch: Option<(u32, u32)>) -> (r:
        Result<usize, Vec<u8>>)
        ensures
            final(self).state() == (CapState {
                compiles: old(self).state().compiles.push(
                    CompileCall {
                        device,
                        source: source@,
                        entry: entry@,
                        arch,
                        result: handle_of(r),
                    },
                ),
                ..old(self).state()
            }),
            final(self).clock() >= old(self).clock(),
            r matches Ok(h) ==> h != 0,
    ;

    /// Unloads one compiled kernel previously returned by
    /// [`GpuCapability::compile`].
    fn unload_kernel(&mut self, handle: usize)
        ensures
            final(self).state() == (CapState {
                kernel_unloads: old(self).state().kernel_unloads.push(handle),
                ..old(self).state()
            }),
            final(self).clock() >= old(self).clock(),
    ;

    /// Submits one launch of `kernel` with explicit grid and block geometry
    /// and the five argument slots in fixed order, and waits for completion.
    /// On rejection the error carries the backend's diagnostic text.
    fn launch(
        &mut self,
        device: usize,
        queue: usize,
        kernel: usize,
        grid_x: u32,
        grid_y: u32,
        block_x: u32,
        block_y: u32,
        outgoing: usize,
        incoming: usize,
        dest: usize,
        params: &TransitionParams,
        user_params: &Vec<u8>,
    ) -> (r: Result<(), Vec<u8>>)
        ensures
            final(self).state() == (CapState {
                launches: old(self).state().launches.push(
                    LaunchCall {
                        device,
                        queue,
                        kernel,
                        grid_x,
                        grid_y,
                        block_x,
                        block_y,
                        outgoing,
                        incoming,
                        dest,
                        params: *params,
                        user_params: user_params@,
                        ok: r is Ok,
                    },
                ),
                gpu_time: final(self).state().gpu_time,
                ..old(self).state()
            }),
            final(self).clock() >= old(self).clock(),
    ;

    /// The hardware-preferred thread-group shape for `kernel`, where the
    /// backend can report one. Reported dimensions are never zero.
    fn preferred_block_shape(&self, kernel: usize) -> (r: Option<(u32, u32)>)
        ensures
            r == (if self.state().preferred.contains_key(kernel) {
                Some(self.state().preferred[kernel])
            } else {
                Option::<(u32, u32)>::None
            }),
            r matches Some(p) ==> p.0 >= 1 && p.1 >= 1,
    ;

    /// The target-architecture hint for compilation on `device`, where the
    /// backend can derive one from the device's reported capability.
    fn device_arch(&self, device: usize) -> (r: Option<(u32, u32)>)
        ensures
            r == (if self.state().arch.contains_key(device) {
                Some(self.state().arch[device])
            } else {
                Option::<(u32, u32)>::None
            }),
    ;

    /// GPU-reported elapsed time of the last completed submission, in
    /// microseconds; `None` when the backend cannot report one. Best
    /// effort: a caller must not fail on `None`.
    fn elapsed_gpu_micros(&self) -> (r: Option<u64>)
        ensures
            r == self.state().gpu_time,
    ;

    /// The current clock reading, in microseconds.
    fn now_micros(&mut self) -> (r: u64)
        ensures
            final(self).state() == old(self).state(),
            final(self).clock() >= old(self).clock(),
            r == final(self).clock(),
    ;
}

} // verus!
