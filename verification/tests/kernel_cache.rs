use gpu_dispatch::errors::GpuError;
use gpu_dispatch::pipeline::{half_precision_source, hash_bytes, hash_str, KernelCache, ReloadSource};
use gpu_dispatch::stub::StubCapability;

#[test]
fn identical_arguments_compile_each_variant_once() {
    let mut cap = StubCapability::new();
    let mut cache = KernelCache::new();
    let src = b"kernel void e() {}".to_vec();
    let first = cache.get_pso_pair(&mut cap, 7, &src, "e", &ReloadSource::Embedded).unwrap();
    assert_eq!(cap.compile_calls, 2);
    let second = cache.get_pso_pair(&mut cap, 7, &src, "e", &ReloadSource::Embedded).unwrap();
    assert_eq!(cap.compile_calls, 2);
    assert_eq!(first.full, second.full);
    assert_eq!(first.half, second.half);
    assert_ne!(first.full, first.half);
}

#[test]
fn changing_only_the_entry_point_compiles_anew() {
    let mut cap = StubCapability::new();
    let mut cache = KernelCache::new();
    let src = b"X".to_vec();
    cache.get_pso_pair(&mut cap, 7, &src, "e", &ReloadSource::Embedded).unwrap();
    assert_eq!(cap.compile_calls, 2);
    cache.get_pso_pair(&mut cap, 7, &src, "f", &ReloadSource::Embedded).unwrap();
    assert_eq!(cap.compile_calls, 4);
}

#[test]
fn changing_the_source_or_device_compiles_anew() {
    let mut cap = StubCapability::new();
    let mut cache = KernelCache::new();
    cache.get_pso_pair(&mut cap, 7, &b"X".to_vec(), "e", &ReloadSource::Embedded).unwrap();
    cache.get_pso_pair(&mut cap, 7, &b"Y".to_vec(), "e", &ReloadSource::Embedded).unwrap();
    assert_eq!(cap.compile_calls, 4);
    cache.get_pso_pair(&mut cap, 8, &b"X".to_vec(), "e", &ReloadSource::Embedded).unwrap();
    assert_eq!(cap.compile_calls, 6);
}

#[test]
fn half_variant_prepends_the_precision_macro() {
    let src = b"kernel".to_vec();
    let half = half_precision_source(&src);
    assert_eq!(half, b"#define USE_HALF_PRECISION 1\nkernel".to_vec());
    let half_of_empty = half_precision_source(&Vec::new());
    assert_eq!(half_of_empty, b"#define USE_HALF_PRECISION 1\n".to_vec());
}

#[test]
fn both_variants_are_compiled_half_with_the_macro() {
    let mut cap = StubCapability::new();
    let mut cache = KernelCache::new();
    let src = b"S".to_vec();
    cache.get_pso_pair(&mut cap, 7, &src, "e", &ReloadSource::Embedded).unwrap();
    // The last compilation is the half-precision variant.
    assert_eq!(cap.last_compile_source, b"#define USE_HALF_PRECISION 1\nS".to_vec());
}

#[test]
fn hinted_compile_failure_retries_without_hints() {
    let mut cap = StubCapability::new();
    cap.arch_hint = Some((8, 9));
    cap.fail_compile_hinted = true;
    let mut cache = KernelCache::new();
    let pair = cache.get_pso_pair(&mut cap, 7, &b"X".to_vec(), "e", &ReloadSource::Embedded).unwrap();
    // Each variant: one failed hinted attempt, one unhinted success.
    assert_eq!(cap.compile_calls, 4);
    assert_ne!(pair.full, 0);
    assert_ne!(pair.half, 0);
}

#[test]
fn hinted_success_compiles_once_per_variant() {
    let mut cap = StubCapability::new();
    cap.arch_hint = Some((8, 9));
    let mut cache = KernelCache::new();
    cache.get_pso_pair(&mut cap, 7, &b"X".to_vec(), "e", &ReloadSource::Embedded).unwrap();
    assert_eq!(cap.compile_calls, 2);
}

#[test]
fn compile_failure_is_fatal_and_caches_nothing() {
    let mut cap = StubCapability::new();
    cap.fail_compile = true;
    let mut cache = KernelCache::new();
    let r = cache.get_pso_pair(&mut cap, 7, &b"X".to_vec(), "e", &ReloadSource::Embedded);
    assert!(matches!(r, Err(GpuError::CompileFailure { .. })));
    cap.fail_compile = false;
    cache.get_pso_pair(&mut cap, 7, &b"X".to_vec(), "e", &ReloadSource::Embedded).unwrap();
    // The failed call cached nothing, so this compiled both variants.
    assert!(cap.compile_calls >= 3);
}

#[test]
fn cleanup_unloads_both_members_and_forces_recompilation() {
    let mut cap = StubCapability::new();
    let mut cache = KernelCache::new();
    cache.get_pso_pair(&mut cap, 7, &b"X".to_vec(), "e", &ReloadSource::Embedded).unwrap();
    cache.cleanup(&mut cap);
    assert_eq!(cap.unload_calls, 2);
    cache.get_pso_pair(&mut cap, 7, &b"X".to_vec(), "e", &ReloadSource::Embedded).unwrap();
    assert_eq!(cap.compile_calls, 4);
}

#[test]
fn hot_reload_clears_without_recompiling_eagerly() {
    let mut cap = StubCapability::new();
    let mut cache = KernelCache::new();
    let src = b"X".to_vec();
    cache.get_pso_pair(&mut cap, 7, &src, "e", &ReloadSource::Embedded).unwrap();
    assert!(cache.has_pair(7, &src, "e"));
    cache.hot_reload(&mut cap);
    assert!(!cache.has_pair(7, &src, "e"));
    // No eager recompilation happened.
    assert_eq!(cap.compile_calls, 2);
    assert_eq!(cap.unload_calls, 2);
}

#[test]
fn reloaded_source_is_what_gets_compiled() {
    let mut cap = StubCapability::new();
    let mut cache = KernelCache::new();
    let embedded = b"embedded".to_vec();
    let expanded = b"expanded".to_vec();
    cache
        .get_pso_pair(&mut cap, 7, &embedded, "e", &ReloadSource::Expanded(expanded))
        .unwrap();
    assert_eq!(cap.last_compile_source, b"#define USE_HALF_PRECISION 1\nexpanded".to_vec());
}

#[test]
fn failed_reload_falls_back_to_the_embedded_source() {
    let mut cap = StubCapability::new();
    let mut cache = KernelCache::new();
    let embedded = b"embedded".to_vec();
    let fail = gpu_dispatch::errors::IncludeFail::Circular { path: b"a.h".to_vec() };
    cache.get_pso_pair(&mut cap, 7, &embedded, "e", &ReloadSource::Failed(fail)).unwrap();
    assert_eq!(cap.last_compile_source, b"#define USE_HALF_PRECISION 1\nembedded".to_vec());
}

#[test]
fn null_device_is_refused_before_any_lookup_or_compilation() {
    let mut cap = StubCapability::new();
    let mut cache = KernelCache::new();
    let r = cache.get_pso_pair(&mut cap, 0, &b"X".to_vec(), "e", &ReloadSource::Embedded);
    assert!(matches!(r, Err(GpuError::InvalidHandle)));
    assert_eq!(cap.compile_calls, 0);
    assert!(!cache.has_pair(0, &b"X".to_vec(), "e"));
    // A valid device afterwards works normally.
    cache.get_pso_pair(&mut cap, 7, &b"X".to_vec(), "e", &ReloadSource::Embedded).unwrap();
    assert_eq!(cap.compile_calls, 2);
}

#[test]
fn repeated_kernel_cleanup_is_a_no_op() {
    let mut cap = StubCapability::new();
    let mut cache = KernelCache::new();
    cache.get_pso_pair(&mut cap, 7, &b"X".to_vec(), "e", &ReloadSource::Embedded).unwrap();
    cache.cleanup(&mut cap);
    assert_eq!(cap.unload_calls, 2);
    cache.cleanup(&mut cap);
    cache.hot_reload(&mut cap);
    // Nothing further was unloaded: each handle is released at most once.
    assert_eq!(cap.unload_calls, 2);
}

#[test]
fn content_hash_is_deterministic_and_content_derived() {
    assert_eq!(hash_str(""), 0xcbf29ce484222325);
    assert_eq!(hash_str("abc"), hash_str("abc"));
    assert_ne!(hash_str("abc"), hash_str("abd"));
    assert_ne!(hash_str("e"), hash_str("f"));
    assert_eq!(hash_bytes(&b"abc".to_vec()), hash_str("abc"));
}
