use gpu_dispatch::framework::GPUFramework;
use gpu_dispatch::pixel::Pixel;
use gpu_dispatch::types::{Configuration, MTLSize, TransitionParams};

#[test]
fn framework_selector_decodes_the_host_value() {
    assert_eq!(GPUFramework::from_premiere(0), GPUFramework::Cuda);
    assert_eq!(GPUFramework::from_premiere(1), GPUFramework::OpenCL);
    assert_eq!(GPUFramework::from_premiere(2), GPUFramework::Metal);
    assert_eq!(GPUFramework::from_premiere(3), GPUFramework::Other(3));
    assert_eq!(GPUFramework::from_premiere(u32::MAX), GPUFramework::Other(u32::MAX));
}

#[test]
fn pixel_from_u64_color_reads_the_documented_bytes() {
    // Big-endian bytes: [0]=alpha, [2]=red, [4]=green, [6]=blue.
    let raw: u64 = 0xAA00BB00CC00DD00;
    let p = Pixel::from_u64_color(raw);
    assert_eq!(p.alpha, 0xAA);
    assert_eq!(p.red, 0xBB);
    assert_eq!(p.green, 0xCC);
    assert_eq!(p.blue, 0xDD);
    // Matches the byte view exactly.
    let bytes = raw.to_be_bytes();
    assert_eq!(p.red, bytes[2]);
    assert_eq!(p.green, bytes[4]);
    assert_eq!(p.blue, bytes[6]);
    assert_eq!(p.alpha, bytes[0]);
}

#[test]
fn pixel_from_bytes32_reads_argb_order() {
    let p = Pixel::from_bytes32(0xAABBCCDD);
    assert_eq!(p.alpha, 0xAA);
    assert_eq!(p.red, 0xBB);
    assert_eq!(p.green, 0xCC);
    assert_eq!(p.blue, 0xDD);
    let bytes = 0xAABBCCDDu32.to_be_bytes();
    assert_eq!(p.alpha, bytes[0]);
    assert_eq!(p.red, bytes[1]);
}

#[test]
fn default_pixel_is_opaque_black() {
    let p = Pixel::default();
    assert_eq!((p.red, p.green, p.blue, p.alpha), (0, 0, 0, 255));
}

#[test]
fn transition_params_come_from_the_configuration() {
    let cfg = Configuration {
        device_handle: 1,
        context_handle: None,
        command_queue_handle: 2,
        outgoing_data: 3,
        incoming_data: 4,
        dest_data: 5,
        outgoing_pitch_px: 10,
        incoming_pitch_px: 20,
        dest_pitch_px: 30,
        width: 640,
        height: 480,
        is16f: false,
        progress: 0.75f32.to_bits(),
    };
    let p = TransitionParams::from_config(&cfg);
    assert_eq!(p.out_pitch, 10);
    assert_eq!(p.in_pitch, 20);
    assert_eq!(p.dest_pitch, 30);
    assert_eq!(p.width, 640);
    assert_eq!(p.height, 480);
    assert_eq!(f32::from_bits(p.progress), 0.75);
}

#[test]
fn negative_pitches_convert_as_two_complement() {
    let cfg = Configuration {
        device_handle: 1,
        context_handle: None,
        command_queue_handle: 2,
        outgoing_data: 3,
        incoming_data: 4,
        dest_data: 5,
        outgoing_pitch_px: -1,
        incoming_pitch_px: 0,
        dest_pitch_px: 0,
        width: 1,
        height: 1,
        is16f: false,
        progress: 0,
    };
    let p = TransitionParams::from_config(&cfg);
    assert_eq!(p.out_pitch, (-1i32) as u32);
}

#[test]
fn configuration_validity_requires_all_five_handles() {
    let good = Configuration {
        device_handle: 1,
        context_handle: None,
        command_queue_handle: 2,
        outgoing_data: 3,
        incoming_data: 4,
        dest_data: 5,
        outgoing_pitch_px: 0,
        incoming_pitch_px: 0,
        dest_pitch_px: 0,
        width: 1,
        height: 1,
        is16f: false,
        progress: 0,
    };
    assert!(good.is_valid());
    let mut bad = good;
    bad.outgoing_data = 0;
    assert!(!bad.is_valid());
}

#[test]
fn mtl_size_carries_three_dimensions() {
    let s = MTLSize { width: 63, height: 1, depth: 1 };
    assert_eq!(s, MTLSize { width: 63, height: 1, depth: 1 });
}
