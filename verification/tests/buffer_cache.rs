use gpu_dispatch::buffer::{
    compute_length_bytes, compute_row_bytes, create_raw_buffer, create_texture_buffer, BufferCache,
};
use gpu_dispatch::errors::GpuError;
use gpu_dispatch::stub::StubCapability;

#[test]
fn same_key_twice_returns_same_handle_and_strides() {
    let mut cap = StubCapability::new();
    let mut cache = BufferCache::new();
    let a = cache.get_or_create(&mut cap, 7, 1920, 1080, 16, 0).unwrap();
    let b = cache.get_or_create(&mut cap, 7, 1920, 1080, 16, 0).unwrap();
    assert_eq!(a.buf.raw, b.buf.raw);
    assert_eq!(a.row_bytes, 1920 * 16);
    assert_eq!(a.pitch_px, 1920);
    assert_eq!(b.row_bytes, 1920 * 16);
    assert_eq!(b.pitch_px, 1920);
    assert_eq!(a.width, 1920);
    assert_eq!(a.height, 1080);
    assert_eq!(a.bytes_per_pixel, 16);
}

#[test]
fn keys_differing_in_one_field_get_distinct_handles() {
    let mut cap = StubCapability::new();
    let mut cache = BufferCache::new();
    let base = cache.get_or_create(&mut cap, 7, 100, 50, 16, 0).unwrap();
    let other_device = cache.get_or_create(&mut cap, 8, 100, 50, 16, 0).unwrap();
    let other_width = cache.get_or_create(&mut cap, 7, 101, 50, 16, 0).unwrap();
    let other_height = cache.get_or_create(&mut cap, 7, 100, 51, 16, 0).unwrap();
    let other_bpp = cache.get_or_create(&mut cap, 7, 100, 50, 8, 0).unwrap();
    let other_tag = cache.get_or_create(&mut cap, 7, 100, 50, 16, 1).unwrap();
    let handles = [
        base.buf.raw,
        other_device.buf.raw,
        other_width.buf.raw,
        other_height.buf.raw,
        other_bpp.buf.raw,
        other_tag.buf.raw,
    ];
    for i in 0..handles.len() {
        for j in (i + 1)..handles.len() {
            assert_ne!(handles[i], handles[j]);
        }
    }
    assert_eq!(cap.alloc_calls, 6);
}

#[test]
fn same_key_produces_exactly_one_allocation() {
    let mut cap = StubCapability::new();
    let mut cache = BufferCache::new();
    let first = cache.get_or_create(&mut cap, 1, 64, 64, 8, 0).unwrap();
    assert_eq!(cap.alloc_calls, 1);
    for _ in 0..10 {
        let again = cache.get_or_create(&mut cap, 1, 64, 64, 8, 0).unwrap();
        assert_eq!(again.buf.raw, first.buf.raw);
    }
    assert_eq!(cap.alloc_calls, 1);
}

#[test]
fn cleanup_empties_the_cache_and_frees_everything() {
    let mut cap = StubCapability::new();
    let mut cache = BufferCache::new();
    let first = cache.get_or_create(&mut cap, 1, 64, 64, 8, 0).unwrap();
    cache.get_or_create(&mut cap, 1, 32, 32, 8, 0).unwrap();
    assert_eq!(cap.alloc_calls, 2);
    cache.cleanup(&mut cap);
    assert_eq!(cap.free_calls, 2);
    let fresh = cache.get_or_create(&mut cap, 1, 64, 64, 8, 0).unwrap();
    assert_eq!(cap.alloc_calls, 3);
    assert_ne!(fresh.buf.raw, first.buf.raw);
}

#[test]
fn allocation_failure_is_fatal_and_leaves_cache_clean() {
    let mut cap = StubCapability::new();
    let mut cache = BufferCache::new();
    cap.fail_alloc = true;
    let r = cache.get_or_create(&mut cap, 1, 64, 64, 8, 0);
    assert!(matches!(r, Err(GpuError::AllocationFailure)));
    assert_eq!(cap.alloc_calls, 1);
    cap.fail_alloc = false;
    // The failed attempt cached nothing: the retry allocates.
    cache.get_or_create(&mut cap, 1, 64, 64, 8, 0).unwrap();
    assert_eq!(cap.alloc_calls, 2);
}

#[test]
fn repeated_buffer_cleanup_is_a_no_op() {
    let mut cap = StubCapability::new();
    let mut cache = BufferCache::new();
    cache.get_or_create(&mut cap, 1, 64, 64, 8, 0).unwrap();
    cache.cleanup(&mut cap);
    assert_eq!(cap.free_calls, 1);
    cache.cleanup(&mut cap);
    // Nothing further was freed: each handle is released at most once.
    assert_eq!(cap.free_calls, 1);
}

#[test]
fn row_bytes_multiplies_and_saturates() {
    assert_eq!(compute_row_bytes(1000, 16), 16000);
    assert_eq!(compute_row_bytes(0, 16), 0);
    assert_eq!(compute_row_bytes(u32::MAX, 2), u32::MAX);
}

#[test]
fn length_bytes_widens_and_saturates() {
    assert_eq!(compute_length_bytes(1000, 500, 16), 8_000_000);
    assert_eq!(compute_length_bytes(0, 500, 16), 0);
    // The widened pixel count fits; the final product saturates.
    assert_eq!(compute_length_bytes(u32::MAX, u32::MAX, 16), u64::MAX);
}

#[test]
fn raw_and_texture_creation_allocate_through_the_capability() {
    let mut cap = StubCapability::new();
    let raw = create_raw_buffer(&mut cap, 3, 4096).unwrap();
    assert_ne!(raw.raw, 0);
    let tex = create_texture_buffer(&mut cap, 3, 16, 16, 4).unwrap();
    assert_ne!(tex.raw, 0);
    assert_ne!(raw.raw, tex.raw);
    assert_eq!(cap.alloc_calls, 2);
}
