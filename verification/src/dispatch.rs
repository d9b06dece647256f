//! The dispatch orchestrator: one backend-agnostic protocol that validates
//! the host's handles, obtains the compiled kernel pair, selects the
//! precision variant, binds the five fixed argument slots, computes launch
//! geometry, submits synchronously and reports timing.

use crate::capability::{CapState, GpuCapability, LaunchCall};
use crate::errors::GpuError;
use crate::pipeline::{
    KernelCache, KernelKey, KernelPair, ReloadSource, effective_source, fnv1a, get_pso_pair_post,
};
use crate::types::{Configuration, DispatchTiming, TransitionParams, transition_of};
use vstd::prelude::*;
use vstd::string::StringSliceAdditionalSpecFns;

verus! {

/// One grid dimension: `size` divided by `block`, rounded up.
pub open spec fn grid_dim_of(size: u32, block: u32) -> u32
    recommends
        block >= 1,
{
    ((size + block - 1) / (block as int)) as u32
}

/// Computes one grid dimension as the rounded-up quotient.
pub fn grid_dim(size: u32, block: u32) -> (r: u32)
    requires
        block >= 1,
    ensures
        r == grid_dim_of(size, block),
{
    proof {
        if size >= 1 {
            assert((size + block - 1) / (block as int) <= size) by (nonlinear_arith)
                requires
                    block >= 1,
                    size >= 1,
            ;
        }
    }
    let wide = ((size as u64) + (block as u64) - 1) / (block as u64);
    wide as u32
}

/// The thread-group shape derived from a backend's reported kernel limits:
/// the thread execution width, at least 1, and as many rows as the total
/// thread budget allows, between 1 and 16.
pub open spec fn block_from_limits(thread_width: usize, max_threads: usize) -> (u32, u32) {
    let w = if thread_width < 1 {
        1usize
    } else if thread_width > u32::MAX as usize {
        u32::MAX as usize
    } else {
        thread_width
    };
    let h0 = max_threads / w;
    let h = if h0 < 1 {
        1usize
    } else if h0 > 16 {
        16usize
    } else {
        h0
    };
    (w as u32, h as u32)
}

/// Computes the thread-group shape a backend should report for a kernel,
/// from the kernel's thread execution width and total-thread budget. Both
/// dimensions are at least 1, the height at most 16, and the whole block
/// stays within the budget whenever the budget covers one row.
pub fn preferred_block_from_limits(thread_width: usize, max_threads: usize) -> (r: (u32, u32))
    ensures
        r == block_from_limits(thread_width, max_threads),
        r.0 >= 1,
        1 <= r.1 <= 16,
        max_threads >= (r.0 as usize) ==> (r.0 as int) * (r.1 as int) <= max_threads as int,
{
    let w: usize = if thread_width < 1 {
        1
    } else if thread_width > u32::MAX as usize {
        u32::MAX as usize
    } else {
        thread_width
    };
    let h0: usize = max_threads / w;
    let h: usize = if h0 < 1 {
        1
    } else if h0 > 16 {
        16
    } else {
        h0
    };
    proof {
        if max_threads >= w {
            let q = (max_threads as int) / (w as int);
            vstd::arithmetic::div_mod::lemma_fundamental_div_mod(max_threads as int, w as int);
            vstd::arithmetic::div_mod::lemma_mod_bound(max_threads as int, w as int);
            assert(q >= 1) by (nonlinear_arith)
                requires
                    (max_threads as int) == (w as int) * q + (max_threads as int) % (w as int),
                    0 <= (max_threads as int) % (w as int) < (w as int),
                    (max_threads as int) >= (w as int),
                    (w as int) >= 1,
            ;
            assert(h0 as int == q);
            assert((h as int) <= q);
            assert((w as int) * (h as int) <= max_threads as int) by (nonlinear_arith)
                requires
                    (max_threads as int) == (w as int) * q + (max_threads as int) % (w as int),
                    (max_threads as int) % (w as int) >= 0,
                    (h as int) <= q,
                    (w as int) >= 0,
            ;
        }
    }
    (w as u32, h as u32)
}

/// The block shape a dispatch uses: the backend-reported preferred shape
/// when available, the fixed 16 by 16 default otherwise.
pub open spec fn block_of(pref: Option<(u32, u32)>) -> (u32, u32) {
    match pref {
        Some(p) => p,
        None => (16u32, 16u32),
    }
}

/// The preferred block shape a capability in state `p` reports for `kernel`.
pub open spec fn preferred_of(p: CapState, kernel: usize) -> Option<(u32, u32)> {
    if p.preferred.contains_key(kernel) {
        Some(p.preferred[kernel])
    } else {
        None
    }
}

/// The member of a compiled pair a dispatch selects: the half-precision
/// kernel when the flag is set, the full-precision one otherwise.
pub open spec fn selected(pair: KernelPair, is16f: bool) -> usize {
    if is16f {
        pair.half
    } else {
        pair.full
    }
}

/// The exact launch submission a valid dispatch of `config` makes, given
/// the compiled pair and the capability state before the call: the selected
/// kernel, the geometry from the preferred-or-default block shape, the three
/// data buffers in slots 0 to 2, the fresh transition parameters in slot 3
/// and the user blob in slot 4.
pub open spec fn launch_of(
    config: Configuration,
    pair: KernelPair,
    pre: CapState,
    user_params: Seq<u8>,
    ok: bool,
) -> LaunchCall {
    let kernel = selected(pair, config.is16f);
    let block = block_of(preferred_of(pre, kernel));
    LaunchCall {
        device: config.device_handle,
        queue: config.command_queue_handle,
        kernel,
        grid_x: grid_dim_of(config.width, block.0),
        grid_y: grid_dim_of(config.height, block.1),
        block_x: block.0,
        block_y: block.1,
        outgoing: config.outgoing_data,
        incoming: config.incoming_data,
        dest: config.dest_data,
        params: transition_of(config),
        user_params,
        ok,
    }
}

/// Everything one dispatch call promises, relating the kernel cache and
/// capability states before and after the call to the configuration, the
/// user-parameter bytes, the kernel-cache key, the compiled source and the
/// result. A missing handle fails before any capability call; otherwise the
/// kernel pair is obtained as `get_pso_pair` promises and, when compilation
/// succeeded, exactly one launch is submitted with the exact argument
/// binding of [`launch_of`].
pub open spec fn dispatch_post(
    kc_pre: KernelCache,
    kc_post: KernelCache,
    cap_pre: CapState,
    cap_post: CapState,
    config: Configuration,
    user_params: Seq<u8>,
    key: KernelKey,
    compiled_src: Seq<u8>,
    entry: Seq<char>,
    r: Result<DispatchTiming, GpuError>,
) -> bool {
    if !config.valid() {
        &&& r == Err::<DispatchTiming, GpuError>(GpuError::InvalidHandle)
        &&& kc_post == kc_pre
        &&& cap_post == cap_pre
    } else {
        let mid = CapState { launches: cap_pre.launches, gpu_time: cap_pre.gpu_time, ..cap_post };
        match r {
            Ok(timing) => {
                &&& timing.gpu_micros == cap_post.gpu_time
                &&& kc_post.cached().contains_key(key)
                &&& get_pso_pair_post(
                    kc_pre,
                    kc_post,
                    cap_pre,
                    mid,
                    config.device_handle,
                    key,
                    compiled_src,
                    entry,
                    Ok(kc_post.cached()[key]),
                )
                &&& cap_post.launches == cap_pre.launches.push(
                    launch_of(config, kc_post.cached()[key], cap_pre, user_params, true),
                )
            },
            Err(e) => {
                ||| {
                    &&& e is CompileFailure
                    &&& cap_post.launches == cap_pre.launches
                    &&& get_pso_pair_post(
                        kc_pre,
                        kc_post,
                        cap_pre,
                        mid,
                        config.device_handle,
                        key,
                        compiled_src,
                        entry,
                        Err(e),
                    )
                }
                ||| {
                    &&& e is DispatchFailure
                    &&& kc_post.cached().contains_key(key)
                    &&& get_pso_pair_post(
                        kc_pre,
                        kc_post,
                        cap_pre,
                        mid,
                        config.device_handle,
                        key,
                        compiled_src,
                        entry,
                        Ok(kc_post.cached()[key]),
                    )
                    &&& cap_post.launches == cap_pre.launches.push(
                        launch_of(config, kc_post.cached()[key], cap_pre, user_params, false),
                    )
                }
            },
        }
    }
}

/// Runs one dispatch: validates the configuration's handles, obtains the
/// compiled pair for `(device, shader_src, entry)` (compiling on a miss,
/// with `reload` governing the development-mode source), selects the
/// precision variant per `config.is16f`, builds fresh transition parameters,
/// binds the five argument slots in fixed order, computes the launch grid
/// from the preferred or default block shape, submits, waits, and reports
/// CPU wall-clock time along with best-effort GPU time.
///
/// Any missing handle fails fast with `InvalidHandle` before any allocation,
/// compilation or submission; a stage failure aborts the remaining stages.
pub fn run<C: GpuCapability>(
    cap: &mut C,
    kernels: &mut KernelCache,
    config: &Configuration,
    user_params: &Vec<u8>,
    shader_src: &Vec<u8>,
    entry: &str,
    reload: &ReloadSource,
) -> (r: Result<DispatchTiming, GpuError>)
    requires
        old(kernels).wf(),
    ensures
        final(kernels).wf(),
        dispatch_post(
            *old(kernels),
            *final(kernels),
            old(cap).state(),
            final(cap).state(),
            *config,
            user_params@,
            (KernelKey {
                device: config.device_handle,
                src_hash: fnv1a(shader_src@),
                entry_hash: fnv1a(entry.spec_bytes()),
            }),
            effective_source(*reload, shader_src@),
            entry@,
            r,
        ),
        !config.valid() ==> *final(cap) == *old(cap) && *final(kernels) == *old(kernels),
        r matches Ok(t) ==> t.cpu_micros <= final(cap).clock() - old(cap).clock(),
{
    if !config.is_valid() {
        return Err(GpuError::InvalidHandle);
    }
    let pair = match kernels.get_pso_pair(cap, config.device_handle, shader_src, entry, reload) {
        Ok(p) => p,
        Err(e) => {
            return Err(e);
        },
    };
    let ghost mid = cap.state();
    let kernel = if config.is16f {
        pair.half
    } else {
        pair.full
    };
    let params = TransitionParams::from_config(config);
    let (block_x, block_y) = match cap.preferred_block_shape(kernel) {
        Some(p) => p,
        None => (16u32, 16u32),
    };
    let grid_x = grid_dim(config.width, block_x);
    let grid_y = grid_dim(config.height, block_y);
    let t0 = cap.now_micros();
    let launch_r = cap.launch(
        config.device_handle,
        config.command_queue_handle,
        kernel,
        grid_x,
        grid_y,
        block_x,
        block_y,
        config.outgoing_data,
        config.incoming_data,
        config.dest_data,
        &params,
        user_params,
    );
    let t1 = cap.now_micros();
    proof {
        let pre = old(cap).state();
        assert(mid.launches == pre.launches);
        assert(mid.gpu_time == pre.gpu_time);
        assert((CapState { launches: pre.launches, gpu_time: pre.gpu_time, ..cap.state() })
            == mid);
    }
    match launch_r {
        Ok(_) => {
            let gpu = cap.elapsed_gpu_micros();
            Ok(DispatchTiming { cpu_micros: t1 - t0, gpu_micros: gpu })
        },
        Err(diag) => Err(GpuError::DispatchFailure { diagnostic: diag }),
    }
}

/// The one callable entry point a declared kernel exposes: dispatches the
/// kernel named `entry`, resolved from its embedded source `shader_src`,
/// for the given configuration and user-parameter value. Hosts keep a small
/// table of `(name, source, entry point)` declarations and call this for
/// each.
pub fn dispatch_kernel<C: GpuCapability>(
    cap: &mut C,
    kernels: &mut KernelCache,
    config: &Configuration,
    user_params: &Vec<u8>,
    shader_src: &Vec<u8>,
    entry: &str,
    reload: &ReloadSource,
) -> (r: Result<DispatchTiming, GpuError>)
    requires
        old(kernels).wf(),
    ensures
        final(kernels).wf(),
        dispatch_post(
            *old(kernels),
            *final(kernels),
            old(cap).state(),
            final(cap).state(),
            *config,
            user_params@,
            (KernelKey {
                device: config.device_handle,
                src_hash: fnv1a(shader_src@),
                entry_hash: fnv1a(entry.spec_bytes()),
            }),
            effective_source(*reload, shader_src@),
            entry@,
            r,
        ),
        !config.valid() ==> *final(cap) == *old(cap) && *final(kernels) == *old(kernels),
        r matches Ok(t) ==> t.cpu_micros <= final(cap).clock() - old(cap).clock(),
{
    run(cap, kernels, config, user_params, shader_src, entry, reload)
}

/// Law: argument binding. A successful dispatch submits exactly one launch;
/// its slot 3 carries transition parameters built fresh from the
/// configuration — the progress scalar passed through unchanged — its
/// slot 4 carries the user-parameter bytes unchanged, slots 0 to 2 carry
/// the three data buffers in order, and the launched kernel is the member
/// of the compiled pair that the precision flag selects (the full-precision
/// one when the flag is off).
pub proof fn lemma_dispatch_binding(
    kc_pre: KernelCache,
    kc_post: KernelCache,
    cap_pre: CapState,
    cap_post: CapState,
    config: Configuration,
    user_params: Seq<u8>,
    key: KernelKey,
    compiled_src: Seq<u8>,
    entry: Seq<char>,
    r: Result<DispatchTiming, GpuError>,
)
    requires
        config.valid(),
        dispatch_post(
            kc_pre,
            kc_post,
            cap_pre,
            cap_post,
            config,
            user_params,
            key,
            compiled_src,
            entry,
            r,
        ),
        r is Ok,
    ensures
        cap_post.launches.len() == cap_pre.launches.len() + 1,
        cap_post.launches.last().ok,
        cap_post.launches.last().params == transition_of(config),
        cap_post.launches.last().params.progress == config.progress,
        cap_post.launches.last().user_params == user_params,
        cap_post.launches.last().outgoing == config.outgoing_data,
        cap_post.launches.last().incoming == config.incoming_data,
        cap_post.launches.last().dest == config.dest_data,
        cap_post.launches.last().kernel == selected(kc_post.cached()[key], config.is16f),
        !config.is16f ==> cap_post.launches.last().kernel == kc_post.cached()[key].full,
        config.is16f ==> cap_post.launches.last().kernel == kc_post.cached()[key].half,
{
}

/// Law: launch geometry. A successful dispatch launches a grid of
/// `ceil(width / block width)` by `ceil(height / block height)`, where the
/// block shape is the backend-preferred one for the selected kernel when
/// the backend reports one, and 16 by 16 otherwise.
pub proof fn lemma_dispatch_geometry(
    kc_pre: KernelCache,
    kc_post: KernelCache,
    cap_pre: CapState,
    cap_post: CapState,
    config: Configuration,
    user_params: Seq<u8>,
    key: KernelKey,
    compiled_src: Seq<u8>,
    entry: Seq<char>,
    r: Result<DispatchTiming, GpuError>,
)
    requires
        config.valid(),
        dispatch_post(
            kc_pre,
            kc_post,
            cap_pre,
            cap_post,
            config,
            user_params,
            key,
            compiled_src,
            entry,
            r,
        ),
        r is Ok,
    ensures
        ({
            let block = block_of(
                preferred_of(cap_pre, selected(kc_post.cached()[key], config.is16f)),
            );
            &&& cap_post.launches.last().block_x == block.0
            &&& cap_post.launches.last().block_y == block.1
            &&& cap_post.launches.last().grid_x == grid_dim_of(config.width, block.0)
            &&& cap_post.launches.last().grid_y == grid_dim_of(config.height, block.1)
        }),
{
}

/// Law: fail fast on a missing handle. A dispatch whose configuration lacks
/// any required handle returns `InvalidHandle` and performs no capability
/// call at all — no allocation, no compilation, no submission — and leaves
/// the kernel cache untouched.
pub proof fn lemma_invalid_handle_is_inert(
    kc_pre: KernelCache,
    kc_post: KernelCache,
    cap_pre: CapState,
    cap_post: CapState,
    config: Configuration,
    user_params: Seq<u8>,
    key: KernelKey,
    compiled_src: Seq<u8>,
    entry: Seq<char>,
    r: Result<DispatchTiming, GpuError>,
)
    requires
        !config.valid(),
        dispatch_post(
            kc_pre,
            kc_post,
            cap_pre,
            cap_post,
            config,
            user_params,
            key,
            compiled_src,
            entry,
            r,
        ),
    ensures
        r == Err::<DispatchTiming, GpuError>(GpuError::InvalidHandle),
        cap_post == cap_pre,
        cap_post.allocs == cap_pre.allocs,
        cap_post.compiles == cap_pre.compiles,
        cap_post.launches == cap_pre.launches,
        kc_post == kc_pre,
{
}

} // verus!
