//! An in-process capability for exercising the caching and dispatch layer
//! without a native backend: it hands out fresh handles, counts every call,
//! and records the last launch so callers can inspect what was bound.

use crate::capability::{AllocCall, CapState, CompileCall, GpuCapability, LaunchCall};
use crate::types::TransitionParams;
use vstd::prelude::*;

verus! {

/// The preferred-shape map a stub with setting `p` reports: every kernel
/// shares the one configured shape, present only when both dimensions are
/// nonzero.
pub open spec fn stub_pref_map(p: Option<(u32, u32)>) -> Map<usize, (u32, u32)> {
    match p {
        Some(pp) => if pp.0 >= 1 && pp.1 >= 1 {
            Map::new(|k: usize| true, |k: usize| pp)
        } else {
            Map::empty()
        },
        None => Map::empty(),
    }
}

/// The architecture-hint map a stub with setting `a` reports: every device
/// shares the one configured hint.
pub open spec fn stub_arch_map(a: Option<(u32, u32)>) -> Map<usize, (u32, u32)> {
    match a {
        Some(aa) => Map::new(|k: usize| true, |k: usize| aa),
        None => Map::empty(),
    }
}

/// A capability that performs no native work. Allocation and compilation
/// hand out fresh nonzero handles; counters and the recorded last launch are
/// plain fields a caller may read, and the failure switches make any stage
/// refuse on demand.
pub struct StubCapability {
    /// Next handle to hand out; never left at zero.
    pub next_handle: usize,
    /// How many allocation calls were made (saturating).
    pub alloc_calls: u64,
    /// How many compilation calls were made (saturating).
    pub compile_calls: u64,
    /// How many launch submissions were made (saturating).
    pub launch_calls: u64,
    /// How many buffer releases were made (saturating).
    pub free_calls: u64,
    /// How many kernel unloads were made (saturating).
    pub unload_calls: u64,
    /// When set, every allocation is refused.
    pub fail_alloc: bool,
    /// When set, every compilation is refused.
    pub fail_compile: bool,
    /// When set, compilations carrying an architecture hint are refused
    /// (compilations without one still succeed).
    pub fail_compile_hinted: bool,
    /// When set, every launch submission is refused.
    pub fail_launch: bool,
    /// The preferred thread-group shape reported for every kernel, if any.
    pub pref_block: Option<(u32, u32)>,
    /// The architecture hint reported for every device, if any.
    pub arch_hint: Option<(u32, u32)>,
    /// The GPU-side elapsed time reported after a launch, if any.
    pub gpu_time: Option<u64>,
    /// The clock, advanced by every call (saturating).
    pub time: u64,
    /// Kernel handle of the last launch submission.
    pub last_kernel: usize,
    /// Grid geometry of the last launch submission.
    pub last_grid: (u32, u32),
    /// Block geometry of the last launch submission.
    pub last_block: (u32, u32),
    /// Buffer handles bound to argument slots 0..2 of the last submission.
    pub last_buffers: (usize, usize, usize),
    /// Transition parameters bound to argument slot 3 of the last
    /// submission.
    pub last_params: Option<TransitionParams>,
    /// User-parameter bytes bound to argument slot 4 of the last submission.
    pub last_user_params: Vec<u8>,
    /// Source text of the last compilation request.
    pub last_compile_source: Vec<u8>,
    /// History of allocation calls.
    pub alloc_log: Ghost<Seq<AllocCall>>,
    /// History of compilation calls.
    pub compile_log: Ghost<Seq<CompileCall>>,
    /// History of launch submissions.
    pub launch_log: Ghost<Seq<LaunchCall>>,
    /// History of buffer releases.
    pub free_log: Ghost<Seq<usize>>,
    /// History of kernel unloads.
    pub unload_log: Ghost<Seq<usize>>,
}

impl StubCapability {
    /// A fresh stub: no calls made, every stage succeeding, no reported
    /// shapes, hints or timings.
    pub fn new() -> (r: StubCapability)
        ensures
            r.state() == (CapState {
                allocs: Seq::<AllocCall>::empty(),
                compiles: Seq::<CompileCall>::empty(),
                launches: Seq::<LaunchCall>::empty(),
                buffer_frees: Seq::<usize>::empty(),
                kernel_unloads: Seq::<usize>::empty(),
                preferred: Map::<usize, (u32, u32)>::empty(),
                arch: Map::<usize, (u32, u32)>::empty(),
                gpu_time: None,
            }),
            r.clock() == 0,
    {
        StubCapability {
            next_handle: 1,
            alloc_calls: 0,
            compile_calls: 0,
            launch_calls: 0,
            free_calls: 0,
            unload_calls: 0,
            fail_alloc: false,
            fail_compile: false,
            fail_compile_hinted: false,
            fail_launch: false,
            pref_block: None,
            arch_hint: None,
            gpu_time: None,
            time: 0,
            last_kernel: 0,
            last_grid: (0, 0),
            last_block: (0, 0),
            last_buffers: (0, 0, 0),
            last_params: None,
            last_user_params: Vec::new(),
            last_compile_source: Vec::new(),
            alloc_log: Ghost(Seq::empty()),
            compile_log: Ghost(Seq::empty()),
            launch_log: Ghost(Seq::empty()),
            free_log: Ghost(Seq::empty()),
            unload_log: Ghost(Seq::empty()),
        }
    }

    /// Takes the next fresh, nonzero handle.
    fn fresh_handle(&mut self) -> (h: usize)
        ensures
            h != 0,
            *final(self) == (StubCapability { next_handle: final(self).next_handle, ..*old(self) }),
    {
        if self.next_handle == 0 {
            self.next_handle = 1;
        }
        let h = self.next_handle;
        self.next_handle = self.next_handle.wrapping_add(1);
        h
    }
}

impl GpuCapability for StubCapability {
    open spec fn state(&self) -> CapState {
        CapState {
            allocs: self.alloc_log@,
            compiles: self.compile_log@,
            launches: self.launch_log@,
            buffer_frees: self.free_log@,
            kernel_unloads: self.unload_log@,
            preferred: stub_pref_map(self.pref_block),
            arch: stub_arch_map(self.arch_hint),
            gpu_time: self.gpu_time,
        }
    }

    open spec fn clock(&self) -> u64 {
        self.time
    }

    fn allocate(&mut self, device: usize, length_bytes: u64) -> (r: Result<usize, ()>) {
        self.time = self.time.saturating_add(1);
        self.alloc_calls = self.alloc_calls.saturating_add(1);
        let r: Result<usize, ()> = if self.fail_alloc {
            Err(())
        } else {
            Ok(self.fresh_handle())
        };
        proof {
            self.alloc_log@ = self.alloc_log@.push(
                AllocCall {
                    device,
                    len: length_bytes,
                    result: match r {
                        Ok(h) => Some(h),
                        Err(_) => None,
                    },
                },
            );
        }
        r
    }

    fn free_buffer(&mut self, handle: usize) {
        self.time = self.time.saturating_add(1);
        self.free_calls = self.free_calls.saturating_add(1);
        proof {
            self.free_log@ = self.free_log@.push(handle);
        }
    }

    fn compile(&mut self, device: usize, source: &Vec<u8>, entry: &str, arch: Option<(u32, u32)>) -> (r:
        Result<usize, Vec<u8>>) {
        self.time = self.time.saturating_add(1);
        self.compile_calls = self.compile_calls.saturating_add(1);
        self.last_compile_source = source.clone();
        let refused = self.fail_compile || (self.fail_compile_hinted && arch.is_some());
        let r: Result<usize, Vec<u8>> = if refused {
            Err(Vec::new())
        } else {
            Ok(self.fresh_handle())
        };
        proof {
            self.compile_log@ = self.compile_log@.push(
                CompileCall {
                    device,
                    source: source@,
                    entry: entry@,
                    arch,
                    result: match r {
                        Ok(h) => Some(h),
                        Err(_) => None,
                    },
                },
            );
        }
        r
    }

    fn unload_kernel(&mut self, handle: usize) {
        self.time = self.time.saturating_add(1);
        self.unload_calls = self.unload_calls.saturating_add(1);
        proof {
            self.unload_log@ = self.unload_log@.push(handle);
        }
    }

    fn launch(
        &mut self,
        device: usize,
        queue: usize,
        kernel: usize,
        grid_x: u32,
        grid_y: u32,
        block_x: u32,
        block_y: u32,
        outgoing: usize,
        incoming: usize,
        dest: usize,
        params: &TransitionParams,
        user_params: &Vec<u8>,
    ) -> (r: Result<(), Vec<u8>>) {
        self.time = self.time.saturating_add(1);
        self.launch_calls = self.launch_calls.saturating_add(1);
        self.last_kernel = kernel;
        self.last_grid = (grid_x, grid_y);
        self.last_block = (block_x, block_y);
        self.last_buffers = (outgoing, incoming, dest);
        self.last_params = Some(*params);
        self.last_user_params = user_params.clone();
        let r: Result<(), Vec<u8>> = if self.fail_launch {
            Err(Vec::new())
        } else {
            Ok(())
        };
        proof {
            self.launch_log@ = self.launch_log@.push(
                LaunchCall {
                    device,
                    queue,
                    kernel,
                    grid_x,
                    grid_y,
                    block_x,
                    block_y,
                    outgoing,
                    incoming,
                    dest,
                    params: *params,
                    user_params: user_params@,
                    ok: r is Ok,
                },
            );
        }
        r
    }

    fn preferred_block_shape(&self, kernel: usize) -> (r: Option<(u32, u32)>) {
        match self.pref_block {
            Some((w, h)) => if w >= 1 && h >= 1 {
                Some((w, h))
            } else {
                None
            },
            None => None,
        }
    }

    fn device_arch(&self, device: usize) -> (r: Option<(u32, u32)>) {
        self.arch_hint
    }

    fn elapsed_gpu_micros(&self) -> (r: Option<u64>) {
        self.gpu_time
    }

    fn now_micros(&mut self) -> (r: u64) {
        self.time = self.time.saturating_add(1);
        self.time
    }
}

} // verus!
