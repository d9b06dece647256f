//! The compiled-kernel cache: one pair of device-resident kernels
//! (full-precision and half-precision variants of the same entry point) per
//! `(device, source identity, entry point)` key, compiled lazily through the
//! capability with a retry-without-hints fallback, until an explicit cleanup
//! unloads everything.

use crate::assoc::{assoc_distinct, assoc_has_key, assoc_map, lemma_assoc_push};
use crate::capability::{CapState, CompileCall, GpuCapability};
use crate::errors::{GpuError, IncludeFail};
use vstd::prelude::*;
use vstd::string::StringSliceAdditionalSpecFns;

verus! {

/// Offset basis of the 64-bit FNV-1a content hash.
pub const FNV_OFFSET: u64 = 0xcbf29ce484222325;

/// Prime of the 64-bit FNV-1a content hash.
pub const FNV_PRIME: u64 = 0x100000001b3;

/// One FNV-1a step: fold byte `b` into hash `h`.
pub open spec fn fnv1a_update(h: u64, b: u8) -> u64 {
    ((((h ^ (b as u64)) as nat) * (FNV_PRIME as nat)) % 0x10000000000000000) as u64
}

/// The 64-bit FNV-1a hash of a byte sequence: the content-derived identity
/// under which sources and entry names are cached.
pub open spec fn fnv1a(bytes: Seq<u8>) -> u64
    decreases bytes.len(),
{
    if bytes.len() == 0 {
        FNV_OFFSET
    } else {
        fnv1a_update(fnv1a(bytes.drop_last()), bytes.last())
    }
}

/// Hashes a byte slice with 64-bit FNV-1a.
fn hash_u8s(bytes: &[u8]) -> (r: u64)
    ensures
        r == fnv1a(bytes@),
{
    let mut h: u64 = FNV_OFFSET;
    let mut i: usize = 0;
    while i < bytes.len()
        invariant
            0 <= i <= bytes@.len(),
            h == fnv1a(bytes@.take(i as int)),
        decreases bytes@.len() - i,
    {
        let b = bytes[i];
        h = (h ^ (b as u64)).wrapping_mul(FNV_PRIME);
        proof {
            assert(bytes@.take(i + 1 as int).drop_last() =~= bytes@.take(i as int));
            assert(bytes@.take(i + 1 as int).last() == bytes@[i as int]);
        }
        i = i + 1;
    }
    proof {
        assert(bytes@.take(bytes@.len() as int) =~= bytes@);
    }
    h
}

/// Content hash of a string, over its encoded bytes.
pub fn hash_str(s: &str) -> (r: u64)
    ensures
        r == fnv1a(s.spec_bytes()),
{
    hash_u8s(s.as_bytes())
}

/// Content hash of a byte buffer.
pub fn hash_bytes(v: &Vec<u8>) -> (r: u64)
    ensures
        r == fnv1a(v@),
{
    hash_u8s(v.as_slice())
}

/// Key that uniquely identifies one cached kernel pair: the device, the
/// content identity of the shader source, and the content identity of the
/// entry-point name.
#[derive(Debug, Clone, Copy, PartialEq, Eq, Hash, Structural)]
pub struct KernelKey {
    /// Device identity (an opaque address-sized integer), never dereferenced.
    pub device: usize,
    /// Content hash of the embedded shader source.
    pub src_hash: u64,
    /// Content hash of the entry-point name.
    pub entry_hash: u64,
}

/// Two compiled, device-resident kernels for one entry point: the source
/// compiled as given (full precision) and with the half-precision macro
/// prepended. A dispatch selects one member per call; nothing recompiles per
/// call.
#[derive(Debug, Clone, Copy, PartialEq, Eq, Structural)]
pub struct KernelPair {
    /// Kernel compiled from the source as given.
    pub full: usize,
    /// Kernel compiled with the half-precision macro enabled.
    pub half: usize,
}

/// The line that switches a source to its half-precision variant:
/// `#define USE_HALF_PRECISION 1` and a newline.
pub open spec fn half_prefix() -> Seq<u8> {
    seq![
        '#' as u8,
        'd' as u8,
        'e' as u8,
        'f' as u8,
        'i' as u8,
        'n' as u8,
        'e' as u8,
        ' ' as u8,
        'U' as u8,
        'S' as u8,
        'E' as u8,
        '_' as u8,
        'H' as u8,
        'A' as u8,
        'L' as u8,
        'F' as u8,
        '_' as u8,
        'P' as u8,
        'R' as u8,
        'E' as u8,
        'C' as u8,
        'I' as u8,
        'S' as u8,
        'I' as u8,
        'O' as u8,
        'N' as u8,
        ' ' as u8,
        '1' as u8,
        '\n' as u8,
    ]
}

/// The half-precision variant of a source: the macro-enabling line, then the
/// source unchanged.
pub open spec fn half_source_of(src: Seq<u8>) -> Seq<u8> {
    half_prefix() + src
}

/// Builds the half-precision variant of `src`.
pub fn half_precision_source(src: &Vec<u8>) -> (r: Vec<u8>)
    ensures
        r@ == half_source_of(src@),
{
    let mut out: Vec<u8> = Vec::new();
    out.push('#' as u8);
    out.push('d' as u8);
    out.push('e' as u8);
    out.push('f' as u8);
    out.push('i' as u8);
    out.push('n' as u8);
    out.push('e' as u8);
    out.push(' ' as u8);
    out.push('U' as u8);
    out.push('S' as u8);
    out.push('E' as u8);
    out.push('_' as u8);
    out.push('H' as u8);
    out.push('A' as u8);
    out.push('L' as u8);
    out.push('F' as u8);
    out.push('_' as u8);
    out.push('P' as u8);
    out.push('R' as u8);
    out.push('E' as u8);
    out.push('C' as u8);
    out.push('I' as u8);
    out.push('S' as u8);
    out.push('I' as u8);
    out.push('O' as u8);
    out.push('N' as u8);
    out.push(' ' as u8);
    out.push('1' as u8);
    out.push('\n' as u8);
    proof {
        assert(out@ =~= half_prefix());
    }
    let mut i: usize = 0;
    while i < src.len()
        invariant
            0 <= i <= src@.len(),
            out@ == half_prefix() + src@.take(i as int),
        decreases src@.len() - i,
    {
        out.push(src[i]);
        proof {
            assert(half_prefix() + src@.take(i + 1 as int) =~= (half_prefix() + src@.take(
                i as int,
            )).push(src@[i as int]));
        }
        i = i + 1;
    }
    proof {
        assert(src@.take(src@.len() as int) =~= src@);
    }
    out
}

/// Where the source text to compile comes from on a cache miss: the embedded
/// copy, a development-mode re-read that expanded successfully, or one that
/// failed (the cache then falls back to the embedded copy).
#[derive(Debug, Clone, PartialEq, Eq)]
pub enum ReloadSource {
    /// No development-mode re-read was attempted.
    Embedded,
    /// A development-mode re-read produced this expanded source.
    Expanded(Vec<u8>),
    /// A development-mode re-read failed; the embedded copy is used.
    Failed(IncludeFail),
}

/// The source a cache miss compiles, given the reload outcome and the
/// embedded copy.
pub open spec fn effective_source(reload: ReloadSource, embedded: Seq<u8>) -> Seq<u8> {
    match reload {
        ReloadSource::Expanded(s) => s@,
        _ => embedded,
    }
}

/// The architecture hint a capability reports for `device`, if any.
pub open spec fn hint_of(p: CapState, device: usize) -> Option<(u32, u32)> {
    if p.arch.contains_key(device) {
        Some(p.arch[device])
    } else {
        None
    }
}

/// The compile calls one compile-with-fallback pass appends: either a single
/// attempt, or — only when a hint was present and the hinted attempt failed
/// — the failed hinted attempt followed by the unhinted retry. `outcome` is
/// the handle of the last attempt.
pub open spec fn fallback_trace(
    tail: Seq<CompileCall>,
    device: usize,
    source: Seq<u8>,
    entry: Seq<char>,
    arch: Option<(u32, u32)>,
    outcome: Option<usize>,
) -> bool {
    ||| (tail.len() == 1 && tail[0] == (CompileCall { device, source, entry, arch, result: outcome })
        && (outcome is None ==> arch is None))
    ||| (tail.len() == 2 && arch is Some && tail[0] == (CompileCall {
        device,
        source,
        entry,
        arch,
        result: None,
    }) && tail[1] == (CompileCall { device, source, entry, arch: None, result: outcome }))
}

/// Compiles `source` for `entry` on `device`, hinted when the capability
/// reports an architecture; when the hinted attempt fails, retries once
/// without the hint before declaring failure.
pub fn compile_with_fallback<C: GpuCapability>(
    cap: &mut C,
    device: usize,
    source: &Vec<u8>,
    entry: &str,
    arch: Option<(u32, u32)>,
) -> (r: Result<usize, GpuError>)
    ensures
        final(cap).state() == (CapState {
            compiles: final(cap).state().compiles,
            ..old(cap).state()
        }),
        final(cap).state().compiles.len() > old(cap).state().compiles.len(),
        final(cap).clock() >= old(cap).clock(),
        final(cap).state().compiles.take(old(cap).state().compiles.len() as int) == old(
            cap,
        ).state().compiles,
        fallback_trace(
            final(cap).state().compiles.skip(old(cap).state().compiles.len() as int),
            device,
            source@,
            entry@,
            arch,
            crate::capability::handle_of(r),
        ),
        r matches Ok(h) ==> h != 0,
        r matches Err(e) ==> e is CompileFailure,
{
    let ghost n0 = old(cap).state().compiles.len() as int;
    match cap.compile(device, source, entry, arch) {
        Ok(h) => {
            proof {
                assert(cap.state().compiles.skip(n0) =~= seq![cap.state().compiles.last()]);
                assert(cap.state().compiles.take(n0) =~= old(cap).state().compiles);
            }
            Ok(h)
        },
        Err(diag) => {
            if arch.is_some() {
                let r2 = cap.compile(device, source, entry, None);
                proof {
                    assert(cap.state().compiles.skip(n0) =~= seq![
                        cap.state().compiles[cap.state().compiles.len() - 2],
                        cap.state().compiles.last(),
                    ]);
                    assert(cap.state().compiles.take(n0) =~= old(cap).state().compiles);
                }
                match r2 {
                    Ok(h) => Ok(h),
                    Err(diag2) => Err(GpuError::CompileFailure { diagnostic: diag2 }),
                }
            } else {
                proof {
                    assert(cap.state().compiles.skip(n0) =~= seq![cap.state().compiles.last()]);
                    assert(cap.state().compiles.take(n0) =~= old(cap).state().compiles);
                }
                Err(GpuError::CompileFailure { diagnostic: diag })
            }
        },
    }
}

/// One kernel cache: at most one compiled pair per key at any time. Callers
/// that share a cache across threads must serialize access to it.
pub struct KernelCache {
    entries: Vec<(KernelKey, KernelPair)>,
}

impl KernelCache {
    /// The cache's keys are pairwise distinct, no key carries the null
    /// device, and every cached handle is non-null.
    pub closed spec fn wf(self) -> bool {
        &&& assoc_distinct(self.entries@)
        &&& forall|i: int|
            0 <= i < self.entries@.len() ==> self.entries@[i].1.full != 0 && self.entries@[
                i
            ].1.half != 0
        &&& forall|i: int| 0 <= i < self.entries@.len() ==> (#[trigger] self.entries@[i].0).device
            != 0
    }

    /// The cache's contents as a map from key to compiled pair.
    pub closed spec fn cached(self) -> Map<KernelKey, KernelPair> {
        assoc_map(self.entries@)
    }

    /// An empty cache.
    pub fn new() -> (r: KernelCache)
        ensures
            r.wf(),
            r.cached() == Map::<KernelKey, KernelPair>::empty(),
    {
        let r = KernelCache { entries: Vec::new() };
        proof {
            assert(r.cached() =~= Map::<KernelKey, KernelPair>::empty());
        }
        r
    }

    /// Looks the key up without compiling anything.
    fn find(&self, key: &KernelKey) -> (r: Option<KernelPair>)
        requires
            self.wf(),
        ensures
            r matches Some(p) ==> self.cached().contains_key(*key) && self.cached()[*key] == p,
            r is None ==> !self.cached().contains_key(*key),
    {
        let mut i: usize = 0;
        while i < self.entries.len()
            invariant
                self.wf(),
                0 <= i <= self.entries@.len(),
                forall|j: int| 0 <= j < i ==> self.entries@[j].0 != *key,
            decreases self.entries@.len() - i,
        {
            if self.entries[i].0 == *key {
                let p = self.entries[i].1;
                proof {
                    assert(assoc_has_key(self.entries@, *key));
                    let w = choose|w: int|
                        0 <= w < self.entries@.len() && self.entries@[w].0 == *key;
                    assert(w == i as int);
                }
                return Some(p);
            }
            i = i + 1;
        }
        proof {
            assert(!assoc_has_key(self.entries@, *key));
        }
        None
    }

    /// Whether a pair for `(device, shader_src, fname)` is already cached.
    /// A host uses this to skip the development-mode source re-read on hits.
    /// The null device caches nothing, so it never has a pair.
    pub fn has_pair(&self, device: usize, shader_src: &Vec<u8>, fname: &str) -> (r: bool)
        requires
            self.wf(),
        ensures
            r == self.cached().contains_key(
                KernelKey {
                    device,
                    src_hash: fnv1a(shader_src@),
                    entry_hash: fnv1a(fname.spec_bytes()),
                },
            ),
    {
        let key = KernelKey {
            device,
            src_hash: hash_bytes(shader_src),
            entry_hash: hash_str(fname),
        };
        if device == 0 {
            proof {
                if assoc_has_key(self.entries@, key) {
                    let i = choose|i: int|
                        0 <= i < self.entries@.len() && self.entries@[i].0 == key;
                    assert(self.entries@[i].0.device != 0);
                }
            }
            return false;
        }
        self.find(&key).is_some()
    }

    /// Gets the cached kernel pair for `(device, shader_src, fname)`, or
    /// compiles and caches one if absent.
    ///
    /// A null device handle is refused with `InvalidHandle` before the
    /// lookup: nothing is compiled and nothing cached. On a miss the
    /// compiled text is the reloaded source when a
    /// development-mode re-read succeeded and the embedded copy otherwise
    /// (reload failure is recovered here, never surfaced); the text is
    /// compiled twice, full precision as given and half precision with the
    /// selecting macro prepended, each attempt retried once without the
    /// architecture hint on failure. Both variants must compile or the whole
    /// call fails and caches nothing. A hit touches neither the cache nor
    /// the capability.
    pub fn get_pso_pair<C: GpuCapability>(
        &mut self,
        cap: &mut C,
        device: usize,
        shader_src: &Vec<u8>,
        fname: &str,
        reload: &ReloadSource,
    ) -> (r: Result<KernelPair, GpuError>)
        requires
            old(self).wf(),
        ensures
            final(self).wf(),
            get_pso_pair_post(
                *old(self),
                *final(self),
                old(cap).state(),
                final(cap).state(),
                device,
                (KernelKey {
                    device,
                    src_hash: fnv1a(shader_src@),
                    entry_hash: fnv1a(fname.spec_bytes()),
                }),
                effective_source(*reload, shader_src@),
                fname@,
                r,
            ),
            old(self).cached().contains_key(
                KernelKey {
                    device,
                    src_hash: fnv1a(shader_src@),
                    entry_hash: fnv1a(fname.spec_bytes()),
                },
            ) ==> *final(cap) == *old(cap),
            final(cap).clock() >= old(cap).clock(),
    {
        if device == 0 {
            return Err(GpuError::InvalidHandle);
        }
        let key = KernelKey {
            device,
            src_hash: hash_bytes(shader_src),
            entry_hash: hash_str(fname),
        };
        if let Some(pair) = self.find(&key) {
            return Ok(pair);
        }
        let src_full: &Vec<u8> = match reload {
            ReloadSource::Expanded(s) => s,
            _ => shader_src,
        };
        let arch = cap.device_arch(device);
        let full = match compile_with_fallback(cap, device, src_full, fname, arch) {
            Ok(h) => h,
            Err(e) => {
                return Err(e);
            },
        };
        let ghost mid = cap.state();
        let src_half = half_precision_source(src_full);
        let half = match compile_with_fallback(cap, device, &src_half, fname, arch) {
            Ok(h) => h,
            Err(e) => {
                proof {
                    let n1 = mid.compiles.len() as int;
                    assert(cap.state().compiles.skip(n1).last() == cap.state().compiles.last());
                }
                return Err(e);
            },
        };
        let pair = KernelPair { full, half };
        proof {
            lemma_assoc_push(self.entries@, key, pair);
            let n0 = old(cap).state().compiles.len() as int;
            let n1 = mid.compiles.len() as int;
            let fin = cap.state().compiles;
            assert(mid.compiles[n0] == mid.compiles.skip(n0)[0]);
            assert(fin[n0] == fin.take(n1)[n0]);
            assert(fin.subrange(n0, n1) =~= mid.compiles.skip(n0));
            assert(fin.subrange(n1, fin.len() as int) =~= fin.skip(n1));
        }
        self.entries.push((key, pair));
        Ok(pair)
    }

    /// Releases every cached kernel through the capability — both members
    /// of each pair, in cache order — and empties the cache. Each handle is
    /// unloaded exactly once; cleaning an already-empty cache unloads
    /// nothing and leaves the capability untouched, so repeating a cleanup
    /// is a no-op.
    ///
    /// Caller contract: no outstanding GPU work may still reference any
    /// cached kernel.
    pub fn cleanup<C: GpuCapability>(&mut self, cap: &mut C)
        requires
            old(self).wf(),
        ensures
            final(self).wf(),
            final(self).cached() == Map::<KernelKey, KernelPair>::empty(),
            final(cap).state() == (CapState {
                kernel_unloads: old(cap).state().kernel_unloads + unload_handles(*old(self)),
                ..old(cap).state()
            }),
            old(self).cached() == Map::<KernelKey, KernelPair>::empty() ==> *final(cap) == *old(
                cap,
            ),
    {
        let ghost orig = self.entries@;
        let mut i: usize = 0;
        while i < self.entries.len()
            invariant
                self.entries@ == orig,
                0 <= i <= orig.len(),
                i == 0 ==> *cap == *old(cap),
                cap.state() == (CapState {
                    kernel_unloads: old(cap).state().kernel_unloads + unload_seq(
                        orig.take(i as int),
                    ),
                    ..old(cap).state()
                }),
            decreases orig.len() - i,
        {
            let full = self.entries[i].1.full;
            let half = self.entries[i].1.half;
            cap.unload_kernel(full);
            cap.unload_kernel(half);
            proof {
                assert(orig.take(i + 1 as int).drop_last() =~= orig.take(i as int));
                assert(unload_seq(orig.take(i + 1 as int)) == unload_seq(orig.take(i as int))
                    + seq![full, half]);
                assert(old(cap).state().kernel_unloads + unload_seq(orig.take(i + 1 as int))
                    =~= ((old(cap).state().kernel_unloads + unload_seq(orig.take(i as int))).push(
                    full,
                )).push(half));
            }
            i = i + 1;
        }
        self.entries.clear();
        proof {
            assert(orig.take(orig.len() as int) =~= orig);
            assert(self.cached() =~= Map::<KernelKey, KernelPair>::empty());
            // An entry would make the old map nonempty, so an empty old map
            // means the loop never ran and the capability was never touched.
            if orig.len() > 0 {
                assert(assoc_has_key(orig, orig[0].0));
                assert(old(self).cached().contains_key(orig[0].0));
            }
        }
    }

    /// Cleans the cache up (unloading every kernel) so that the next request
    /// recompiles from fresh source. No eager recompilation happens here,
    /// and repeating the call unloads nothing further.
    pub fn hot_reload<C: GpuCapability>(&mut self, cap: &mut C)
        requires
            old(self).wf(),
        ensures
            final(self).wf(),
            final(self).cached() == Map::<KernelKey, KernelPair>::empty(),
            final(cap).state() == (CapState {
                kernel_unloads: old(cap).state().kernel_unloads + unload_handles(*old(self)),
                ..old(cap).state()
            }),
            old(self).cached() == Map::<KernelKey, KernelPair>::empty() ==> *final(cap) == *old(
                cap,
            ),
    {
        self.cleanup(cap);
    }
}

/// The kernel handles an entry sequence holds, flattened in cache order,
/// each pair's full member first.
pub open spec fn unload_seq(s: Seq<(KernelKey, KernelPair)>) -> Seq<usize>
    decreases s.len(),
{
    if s.len() == 0 {
        Seq::empty()
    } else {
        unload_seq(s.drop_last()) + seq![s.last().1.full, s.last().1.half]
    }
}

/// The kernel handles a cache holds, flattened in cache order.
pub closed spec fn unload_handles(c: KernelCache) -> Seq<usize> {
    unload_seq(c.entries@)
}

/// Everything one `get_pso_pair` call promises, relating the cache and
/// capability states before (`pre`, `cap_pre`) and after (`post`,
/// `cap_post`) the call to the cache key, the compiled source text and the
/// result. The null device is refused before any lookup or capability call.
pub open spec fn get_pso_pair_post(
    pre: KernelCache,
    post: KernelCache,
    cap_pre: CapState,
    cap_post: CapState,
    device: usize,
    key: KernelKey,
    compiled_src: Seq<u8>,
    entry: Seq<char>,
    r: Result<KernelPair, GpuError>,
) -> bool {
    if device == 0 {
        &&& r == Err::<KernelPair, GpuError>(GpuError::InvalidHandle)
        &&& post == pre
        &&& cap_post == cap_pre
    } else if pre.cached().contains_key(key) {
        &&& r is Ok
        &&& (r matches Ok(p) ==> p == pre.cached()[key])
        &&& post == pre
        &&& cap_post == cap_pre
    } else {
        &&& cap_post == (CapState { compiles: cap_post.compiles, ..cap_pre })
        &&& cap_post.compiles.len() > cap_pre.compiles.len()
        &&& (match r {
            Ok(pair) => {
                let n0 = cap_pre.compiles.len() as int;
                let n1 = if cap_post.compiles[n0].result is Some {
                    n0 + 1
                } else {
                    n0 + 2
                };
                &&& pair.full != 0
                &&& pair.half != 0
                &&& post.cached() == pre.cached().insert(key, pair)
                &&& n1 < cap_post.compiles.len() as int
                &&& fallback_trace(
                    cap_post.compiles.subrange(n0, n1),
                    device,
                    compiled_src,
                    entry,
                    hint_of(cap_pre, device),
                    Some(pair.full),
                )
                &&& fallback_trace(
                    cap_post.compiles.subrange(n1, cap_post.compiles.len() as int),
                    device,
                    half_source_of(compiled_src),
                    entry,
                    hint_of(cap_pre, device),
                    Some(pair.half),
                )
            },
            Err(e) => {
                &&& e is CompileFailure
                &&& post == pre
                &&& cap_post.compiles.last().result is None
            },
        })
    }
}

/// Law: one compilation per key. When a `get_pso_pair` for a key has
/// succeeded, a second call with identical arguments returns the same
/// compiled pair and performs no compilation at all — the capability is
/// untouched.
pub proof fn lemma_compile_once_per_key(
    s0: KernelCache,
    s1: KernelCache,
    s2: KernelCache,
    p0: CapState,
    p1: CapState,
    p2: CapState,
    device: usize,
    key: KernelKey,
    compiled_src: Seq<u8>,
    entry: Seq<char>,
    r1: Result<KernelPair, GpuError>,
    r2: Result<KernelPair, GpuError>,
)
    requires
        get_pso_pair_post(s0, s1, p0, p1, device, key, compiled_src, entry, r1),
        get_pso_pair_post(s1, s2, p1, p2, device, key, compiled_src, entry, r2),
        r1 is Ok,
    ensures
        r2 is Ok,
        r2->Ok_0 == r1->Ok_0,
        p2 == p1,
        s2 == s1,
{
}

/// Law: a changed key compiles anew. A successful `get_pso_pair` for one
/// key, followed by a call whose key differs (a different entry point,
/// source or device) and is not otherwise cached, performs fresh
/// compilation work.
pub proof fn lemma_new_key_compiles(
    s0: KernelCache,
    s1: KernelCache,
    s2: KernelCache,
    p0: CapState,
    p1: CapState,
    p2: CapState,
    device1: usize,
    device2: usize,
    key1: KernelKey,
    key2: KernelKey,
    src1: Seq<u8>,
    src2: Seq<u8>,
    entry1: Seq<char>,
    entry2: Seq<char>,
    r1: Result<KernelPair, GpuError>,
    r2: Result<KernelPair, GpuError>,
)
    requires
        key1 != key2,
        device2 != 0,
        !s0.cached().contains_key(key1),
        !s0.cached().contains_key(key2),
        get_pso_pair_post(s0, s1, p0, p1, device1, key1, src1, entry1, r1),
        get_pso_pair_post(s1, s2, p1, p2, device2, key2, src2, entry2, r2),
        r1 is Ok,
    ensures
        p2.compiles.len() > p1.compiles.len(),
{
    assert(s1.cached() == s0.cached().insert(key1, r1->Ok_0));
    assert(!s1.cached().contains_key(key2));
}

} // verus!
