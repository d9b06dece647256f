use gpu_dispatch::dispatch::{dispatch_kernel, grid_dim, preferred_block_from_limits};
use gpu_dispatch::errors::GpuError;
use gpu_dispatch::pipeline::{KernelCache, ReloadSource};
use gpu_dispatch::stub::StubCapability;
use gpu_dispatch::types::{Configuration, TransitionParams};

fn config() -> Configuration {
    Configuration {
        device_handle: 7,
        context_handle: Some(9),
        command_queue_handle: 8,
        outgoing_data: 11,
        incoming_data: 12,
        dest_data: 13,
        outgoing_pitch_px: 1024,
        incoming_pitch_px: 1024,
        dest_pitch_px: 1000,
        width: 1000,
        height: 1,
        is16f: false,
        progress: 0.5f32.to_bits(),
    }
}

fn src() -> Vec<u8> {
    b"kernel".to_vec()
}

#[test]
fn default_block_gives_the_documented_grid() {
    let mut cap = StubCapability::new();
    let mut kernels = KernelCache::new();
    let cfg = config();
    dispatch_kernel(&mut cap, &mut kernels, &cfg, &Vec::new(), &src(), "e", &ReloadSource::Embedded)
        .unwrap();
    assert_eq!(cap.last_block, (16, 16));
    assert_eq!(cap.last_grid, (63, 1));
}

#[test]
fn preferred_block_shape_drives_the_grid() {
    let mut cap = StubCapability::new();
    cap.pref_block = Some((32, 8));
    let mut kernels = KernelCache::new();
    let cfg = config();
    dispatch_kernel(&mut cap, &mut kernels, &cfg, &Vec::new(), &src(), "e", &ReloadSource::Embedded)
        .unwrap();
    assert_eq!(cap.last_block, (32, 8));
    assert_eq!(cap.last_grid, (32, 1));
}

#[test]
fn a_degenerate_preferred_shape_falls_back_to_the_default() {
    let mut cap = StubCapability::new();
    cap.pref_block = Some((0, 8));
    let mut kernels = KernelCache::new();
    let cfg = config();
    dispatch_kernel(&mut cap, &mut kernels, &cfg, &Vec::new(), &src(), "e", &ReloadSource::Embedded)
        .unwrap();
    assert_eq!(cap.last_block, (16, 16));
}

#[test]
fn grid_dim_rounds_up() {
    assert_eq!(grid_dim(1000, 16), 63);
    assert_eq!(grid_dim(1, 16), 1);
    assert_eq!(grid_dim(16, 16), 1);
    assert_eq!(grid_dim(17, 16), 2);
    assert_eq!(grid_dim(0, 16), 0);
    assert_eq!(grid_dim(u32::MAX, 1), u32::MAX);
}

#[test]
fn block_from_limits_respects_the_thread_budget() {
    assert_eq!(preferred_block_from_limits(32, 256), (32, 8));
    assert_eq!(preferred_block_from_limits(32, 1024), (32, 16));
    assert_eq!(preferred_block_from_limits(64, 64), (64, 1));
    // A degenerate zero width is lifted to 1; a tiny budget still yields a
    // one-thread block.
    assert_eq!(preferred_block_from_limits(0, 0), (1, 1));
    assert_eq!(preferred_block_from_limits(32, 0), (32, 1));
}

#[test]
fn full_precision_dispatch_binds_the_slots_in_order() {
    let mut cap = StubCapability::new();
    let mut kernels = KernelCache::new();
    let cfg = config();
    let user = vec![1u8, 2, 3, 4];
    dispatch_kernel(&mut cap, &mut kernels, &cfg, &user, &src(), "e", &ReloadSource::Embedded)
        .unwrap();
    // The cache now holds the pair; the launched kernel is its full member.
    let pair = kernels
        .get_pso_pair(&mut cap, 7, &src(), "e", &ReloadSource::Embedded)
        .unwrap();
    assert_eq!(cap.last_kernel, pair.full);
    assert_ne!(cap.last_kernel, pair.half);
    assert_eq!(cap.last_buffers, (11, 12, 13));
    assert_eq!(
        cap.last_params,
        Some(TransitionParams {
            out_pitch: 1024,
            in_pitch: 1024,
            dest_pitch: 1000,
            width: 1000,
            height: 1,
            progress: 0.5f32.to_bits(),
        })
    );
    // Slot 3's progress scalar is the input value, bit for bit.
    assert_eq!(f32::from_bits(cap.last_params.unwrap().progress), 0.5);
    assert_eq!(cap.last_user_params, user);
    assert_eq!(cap.launch_calls, 1);
}

#[test]
fn half_precision_flag_selects_the_half_member() {
    let mut cap = StubCapability::new();
    let mut kernels = KernelCache::new();
    let mut cfg = config();
    cfg.is16f = true;
    dispatch_kernel(&mut cap, &mut kernels, &cfg, &Vec::new(), &src(), "e", &ReloadSource::Embedded)
        .unwrap();
    let pair = kernels
        .get_pso_pair(&mut cap, 7, &src(), "e", &ReloadSource::Embedded)
        .unwrap();
    assert_eq!(cap.last_kernel, pair.half);
}

#[test]
fn null_dest_fails_before_any_work() {
    let mut cap = StubCapability::new();
    let mut kernels = KernelCache::new();
    let mut cfg = config();
    cfg.dest_data = 0;
    let r = dispatch_kernel(
        &mut cap,
        &mut kernels,
        &cfg,
        &Vec::new(),
        &src(),
        "e",
        &ReloadSource::Embedded,
    );
    assert!(matches!(r, Err(GpuError::InvalidHandle)));
    assert_eq!(cap.alloc_calls, 0);
    assert_eq!(cap.compile_calls, 0);
    assert_eq!(cap.launch_calls, 0);
}

#[test]
fn each_missing_handle_fails_fast() {
    for field in 0..4 {
        let mut cap = StubCapability::new();
        let mut kernels = KernelCache::new();
        let mut cfg = config();
        match field {
            0 => cfg.device_handle = 0,
            1 => cfg.command_queue_handle = 0,
            2 => cfg.outgoing_data = 0,
            _ => cfg.incoming_data = 0,
        }
        let r = dispatch_kernel(
            &mut cap,
            &mut kernels,
            &cfg,
            &Vec::new(),
            &src(),
            "e",
            &ReloadSource::Embedded,
        );
        assert!(matches!(r, Err(GpuError::InvalidHandle)));
        assert_eq!(cap.compile_calls, 0);
        assert_eq!(cap.launch_calls, 0);
    }
}

#[test]
fn second_dispatch_reuses_the_compiled_pair() {
    let mut cap = StubCapability::new();
    let mut kernels = KernelCache::new();
    let cfg = config();
    dispatch_kernel(&mut cap, &mut kernels, &cfg, &Vec::new(), &src(), "e", &ReloadSource::Embedded)
        .unwrap();
    dispatch_kernel(&mut cap, &mut kernels, &cfg, &Vec::new(), &src(), "e", &ReloadSource::Embedded)
        .unwrap();
    assert_eq!(cap.compile_calls, 2);
    assert_eq!(cap.launch_calls, 2);
}

#[test]
fn rejected_launch_surfaces_a_dispatch_failure() {
    let mut cap = StubCapability::new();
    cap.fail_launch = true;
    let mut kernels = KernelCache::new();
    let cfg = config();
    let r = dispatch_kernel(
        &mut cap,
        &mut kernels,
        &cfg,
        &Vec::new(),
        &src(),
        "e",
        &ReloadSource::Embedded,
    );
    assert!(matches!(r, Err(GpuError::DispatchFailure { .. })));
    assert_eq!(cap.launch_calls, 1);
}

#[test]
fn compile_failure_aborts_before_submission() {
    let mut cap = StubCapability::new();
    cap.fail_compile = true;
    let mut kernels = KernelCache::new();
    let cfg = config();
    let r = dispatch_kernel(
        &mut cap,
        &mut kernels,
        &cfg,
        &Vec::new(),
        &src(),
        "e",
        &ReloadSource::Embedded,
    );
    assert!(matches!(r, Err(GpuError::CompileFailure { .. })));
    assert_eq!(cap.launch_calls, 0);
}

#[test]
fn gpu_timing_is_reported_when_available_and_omitted_otherwise() {
    let mut cap = StubCapability::new();
    cap.gpu_time = Some(5);
    let mut kernels = KernelCache::new();
    let cfg = config();
    let timing = dispatch_kernel(
        &mut cap,
        &mut kernels,
        &cfg,
        &Vec::new(),
        &src(),
        "e",
        &ReloadSource::Embedded,
    )
    .unwrap();
    assert_eq!(timing.gpu_micros, Some(5));

    let mut cap2 = StubCapability::new();
    cap2.gpu_time = None;
    let mut kernels2 = KernelCache::new();
    let timing2 = dispatch_kernel(
        &mut cap2,
        &mut kernels2,
        &cfg,
        &Vec::new(),
        &src(),
        "e",
        &ReloadSource::Embedded,
    )
    .unwrap();
    // A timing query failure never fails the dispatch.
    assert_eq!(timing2.gpu_micros, None);
}
