//! The GPU buffer cache: one native buffer per `(device, width, height,
//! bytes-per-pixel, tag)` key, created through the capability on first miss
//! and returned as a stride-annotated view thereafter, until an explicit
//! cleanup releases everything.

use crate::assoc::{assoc_distinct, assoc_has_key, assoc_map, lemma_assoc_push};
use crate::capability::{AllocCall, CapState, GpuCapability};
use crate::errors::GpuError;
use vstd::prelude::*;

verus! {

/// Key that uniquely identifies a cached GPU buffer allocation.
#[derive(Debug, Clone, Copy, PartialEq, Eq, Hash, Structural)]
pub struct BufferKey {
    /// Device identity (an opaque address-sized integer), never dereferenced.
    pub device: usize,
    /// Width in pixels.
    pub width: u32,
    /// Height in pixels.
    pub height: u32,
    /// Bytes per pixel (e.g. 16 for a four-float pixel, 8 for four halves).
    pub bytes_per_pixel: u32,
    /// Disambiguates multiple same-shaped buffers for one device (0 by
    /// default).
    pub tag: u32,
}

/// A shared read-only native buffer handle. Its only operations are passing
/// it to capability calls and comparing it for cache-key equality; the cache
/// owns the allocation and frees it in [`BufferCache::cleanup`].
#[derive(Debug, Clone, Copy, PartialEq, Eq, Structural)]
pub struct BufferObj {
    pub raw: usize,
}

/// The view of one cached buffer returned to callers. Copying it never
/// duplicates or frees the underlying allocation; callers must not free the
/// handle themselves.
#[derive(Debug, Clone, Copy, PartialEq, Eq, Structural)]
pub struct ImageBuffer {
    pub buf: BufferObj,
    pub width: u32,
    pub height: u32,
    /// Bytes per pixel.
    pub bytes_per_pixel: u32,
    /// Row stride in bytes, `width * bytes_per_pixel` (saturated).
    pub row_bytes: u32,
    /// Row stride in pixels, always equal to `width`.
    pub pitch_px: u32,
}

/// Row stride in bytes of a `width`-pixel row: `width * bytes_per_pixel`,
/// saturated at the type's maximum.
pub open spec fn row_bytes_of(width: u32, bytes_per_pixel: u32) -> u32 {
    if width * bytes_per_pixel <= u32::MAX {
        (width * bytes_per_pixel) as u32
    } else {
        u32::MAX
    }
}

/// Total allocation length of a `width` by `height` image at
/// `bytes_per_pixel`: the widened product, saturated at the type's maximum.
pub open spec fn length_bytes_of(width: u32, height: u32, bytes_per_pixel: u32) -> u64 {
    if width * height * bytes_per_pixel <= u64::MAX {
        (width * height * bytes_per_pixel) as u64
    } else {
        u64::MAX
    }
}

/// Row stride in bytes, computed with saturating arithmetic so outsized
/// frames cannot overflow.
pub fn compute_row_bytes(width: u32, bytes_per_pixel: u32) -> (r: u32)
    ensures
        r == row_bytes_of(width, bytes_per_pixel),
{
    match width.checked_mul(bytes_per_pixel) {
        Some(v) => v,
        None => u32::MAX,
    }
}

/// Total allocation length in bytes, computed with widening then saturating
/// arithmetic so outsized frames cannot overflow.
pub fn compute_length_bytes(width: u32, height: u32, bytes_per_pixel: u32) -> (r: u64)
    ensures
        r == length_bytes_of(width, height, bytes_per_pixel),
{
    proof {
        assert((width as int) * (height as int) < 0x10000000000000000) by (nonlinear_arith)
            requires
                (width as int) < 0x100000000,
                (height as int) < 0x100000000,
        ;
    }
    let area = (width as u64) * (height as u64);
    match area.checked_mul(bytes_per_pixel as u64) {
        Some(v) => v,
        None => u64::MAX,
    }
}

/// Allocates `length_bytes` raw bytes on `device` through the capability.
/// The buffer's semantic shape is not inspected.
pub fn create_raw_buffer<C: GpuCapability>(cap: &mut C, device: usize, length_bytes: u64) -> (r:
    Result<BufferObj, GpuError>)
    ensures
        final(cap).state() == (CapState {
            allocs: old(cap).state().allocs.push(
                AllocCall { device, len: length_bytes, result: raw_of(r) },
            ),
            ..old(cap).state()
        }),
        r matches Ok(b) ==> b.raw != 0,
        r is Err ==> r == Err::<BufferObj, GpuError>(GpuError::AllocationFailure),
{
    match cap.allocate(device, length_bytes) {
        Ok(h) => Ok(BufferObj { raw: h }),
        Err(_) => Err(GpuError::AllocationFailure),
    }
}

/// The handle behind an allocation result, if any.
pub open spec fn raw_of(r: Result<BufferObj, GpuError>) -> Option<usize> {
    match r {
        Ok(b) => Some(b.raw),
        Err(_) => None,
    }
}

/// Allocates an image-like buffer sized `width * height` at
/// `bytes_per_pixel` on `device`.
pub fn create_texture_buffer<C: GpuCapability>(
    cap: &mut C,
    device: usize,
    width: u32,
    height: u32,
    bytes_per_pixel: u32,
) -> (r: Result<BufferObj, GpuError>)
    ensures
        final(cap).state() == (CapState {
            allocs: old(cap).state().allocs.push(
                AllocCall {
                    device,
                    len: length_bytes_of(width, height, bytes_per_pixel),
                    result: raw_of(r),
                },
            ),
            ..old(cap).state()
        }),
        r matches Ok(b) ==> b.raw != 0,
        r is Err ==> r == Err::<BufferObj, GpuError>(GpuError::AllocationFailure),
{
    let length = compute_length_bytes(width, height, bytes_per_pixel);
    create_raw_buffer(cap, device, length)
}

/// One buffer cache: at most one native buffer per key at any time. Callers
/// that share a cache across threads must serialize access to it; the
/// at-most-one-instance-per-key guarantee holds within that serialization.
pub struct BufferCache {
    entries: Vec<(BufferKey, BufferObj)>,
}

impl BufferCache {
    /// The cache's keys are pairwise distinct and every cached handle is
    /// non-null.
    pub closed spec fn wf(self) -> bool {
        &&& assoc_distinct(self.entries@)
        &&& forall|i: int| 0 <= i < self.entries@.len() ==> self.entries@[i].1.raw != 0
    }

    /// The cache's contents as a map from key to cached handle.
    pub closed spec fn cached(self) -> Map<BufferKey, BufferObj> {
        assoc_map(self.entries@)
    }

    /// An empty cache.
    pub fn new() -> (r: BufferCache)
        ensures
            r.wf(),
            r.cached() == Map::<BufferKey, BufferObj>::empty(),
    {
        let r = BufferCache { entries: Vec::new() };
        proof {
            assert(r.cached() =~= Map::<BufferKey, BufferObj>::empty());
        }
        r
    }

    /// Looks the key up without creating anything.
    fn find(&self, key: &BufferKey) -> (r: Option<BufferObj>)
        requires
            self.wf(),
        ensures
            r matches Some(b) ==> self.cached().contains_key(*key) && self.cached()[*key] == b,
            r is None ==> !self.cached().contains_key(*key),
    {
        let mut i: usize = 0;
        while i < self.entries.len()
            invariant
                self.wf(),
                0 <= i <= self.entries@.len(),
                forall|j: int| 0 <= j < i ==> self.entries@[j].0 != *key,
            decreases self.entries@.len() - i,
        {
            if self.entries[i].0 == *key {
                let b = self.entries[i].1;
                proof {
                    assert(assoc_has_key(self.entries@, *key));
                    let w = choose|w: int|
                        0 <= w < self.entries@.len() && self.entries@[w].0 == *key;
                    assert(w == i as int);
                }
                return Some(b);
            }
            i = i + 1;
        }
        proof {
            assert(!assoc_has_key(self.entries@, *key));
        }
        None
    }

    /// Gets the cached buffer for the key, or creates and caches one if
    /// absent, and returns a view with the derived stride information.
    ///
    /// Idempotent for a fixed key: a hit touches neither the cache nor the
    /// capability; a miss performs exactly one allocation and inserts the
    /// result before returning, so no key ever gains a second live buffer.
    /// Allocation failure is fatal to the call and leaves the cache
    /// unchanged.
    pub fn get_or_create<C: GpuCapability>(
        &mut self,
        cap: &mut C,
        device: usize,
        width: u32,
        height: u32,
        bytes_per_pixel: u32,
        tag: u32,
    ) -> (r: Result<ImageBuffer, GpuError>)
        requires
            old(self).wf(),
        ensures
            final(self).wf(),
            get_or_create_post(
                *old(self),
                *final(self),
                old(cap).state(),
                final(cap).state(),
                device,
                width,
                height,
                bytes_per_pixel,
                tag,
                r,
            ),
            old(self).cached().contains_key(
                BufferKey { device, width, height, bytes_per_pixel, tag },
            ) ==> *final(cap) == *old(cap),
    {
        let key = BufferKey { device, width, height, bytes_per_pixel, tag };
        let buf = match self.find(&key) {
            Some(existing) => existing,
            None => {
                match create_texture_buffer(cap, device, width, height, bytes_per_pixel) {
                    Ok(obj) => {
                        proof {
                            lemma_assoc_push(self.entries@, key, obj);
                        }
                        self.entries.push((key, obj));
                        obj
                    },
                    Err(e) => {
                        return Err(e);
                    },
                }
            },
        };
        let row_bytes = compute_row_bytes(width, bytes_per_pixel);
        let pitch_px = width;
        Ok(ImageBuffer { buf, width, height, bytes_per_pixel, row_bytes, pitch_px })
    }

    /// Releases every cached buffer through the capability, in cache order,
    /// and empties the cache. Each handle is released exactly once; cleaning
    /// an already-empty cache releases nothing and leaves the capability
    /// untouched, so repeating a cleanup is a no-op.
    ///
    /// Caller contract: no outstanding GPU work may still reference any
    /// cached buffer; this is a documented precondition of the native
    /// release, not enforced here.
    pub fn cleanup<C: GpuCapability>(&mut self, cap: &mut C)
        requires
            old(self).wf(),
        ensures
            final(self).wf(),
            final(self).cached() == Map::<BufferKey, BufferObj>::empty(),
            final(cap).state() == (CapState {
                buffer_frees: old(cap).state().buffer_frees + cached_handles(*old(self)),
                ..old(cap).state()
            }),
            old(self).cached() == Map::<BufferKey, BufferObj>::empty() ==> *final(cap) == *old(
                cap,
            ),
    {
        let ghost orig = self.entries@;
        let mut i: usize = 0;
        while i < self.entries.len()
            invariant
                self.entries@ == orig,
                0 <= i <= orig.len(),
                i == 0 ==> *cap == *old(cap),
                cap.state() == (CapState {
                    buffer_frees: old(cap).state().buffer_frees + orig.take(i as int).map_values(
                        |e: (BufferKey, BufferObj)| e.1.raw,
                    ),
                    ..old(cap).state()
                }),
            decreases orig.len() - i,
        {
            let h = self.entries[i].1.raw;
            cap.free_buffer(h);
            proof {
                assert(orig.take(i + 1 as int) =~= orig.take(i as int).push(orig[i as int]));
                assert(orig.take(i + 1 as int).map_values(|e: (BufferKey, BufferObj)| e.1.raw)
                    =~= orig.take(i as int).map_values(|e: (BufferKey, BufferObj)| e.1.raw).push(
                    h,
                ));
                assert(old(cap).state().buffer_frees + orig.take(i + 1 as int).map_values(
                    |e: (BufferKey, BufferObj)| e.1.raw,
                ) =~= (old(cap).state().buffer_frees + orig.take(i as int).map_values(
                    |e: (BufferKey, BufferObj)| e.1.raw,
                )).push(h));
            }
            i = i + 1;
        }
        self.entries.clear();
        proof {
            assert(orig.take(orig.len() as int) =~= orig);
            assert(self.cached() =~= Map::<BufferKey, BufferObj>::empty());
            // An entry would make the old map nonempty, so an empty old map
            // means the loop never ran and the capability was never touched.
            if orig.len() > 0 {
                assert(assoc_has_key(orig, orig[0].0));
                assert(old(self).cached().contains_key(orig[0].0));
            }
        }
    }
}

/// The handles a cache holds, in cache order.
pub closed spec fn cached_handles(c: BufferCache) -> Seq<usize> {
    c.entries@.map_values(|e: (BufferKey, BufferObj)| e.1.raw)
}

/// The allocation outcome recorded for a `get_or_create` result.
pub open spec fn alloc_result_of(r: Result<ImageBuffer, GpuError>) -> Option<usize> {
    match r {
        Ok(view) => Some(view.buf.raw),
        Err(_) => None,
    }
}

/// Everything one `get_or_create` call promises, relating the cache and
/// capability states before (`pre`, `cap_pre`) and after (`post`,
/// `cap_post`) the call to its arguments and result.
pub open spec fn get_or_create_post(
    pre: BufferCache,
    post: BufferCache,
    cap_pre: CapState,
    cap_post: CapState,
    device: usize,
    width: u32,
    height: u32,
    bytes_per_pixel: u32,
    tag: u32,
    r: Result<ImageBuffer, GpuError>,
) -> bool {
    let k = BufferKey { device, width, height, bytes_per_pixel, tag };
    &&& (match r {
        Ok(view) => {
            &&& post.cached().contains_key(k)
            &&& post.cached()[k] == view.buf
            &&& view.buf.raw != 0
            &&& view.width == width
            &&& view.height == height
            &&& view.bytes_per_pixel == bytes_per_pixel
            &&& view.row_bytes == row_bytes_of(width, bytes_per_pixel)
            &&& view.pitch_px == width
        },
        Err(e) => {
            &&& e == GpuError::AllocationFailure
            &&& post == pre
        },
    })
    &&& (if pre.cached().contains_key(k) {
        &&& r is Ok
        &&& (r matches Ok(view) ==> view.buf == pre.cached()[k])
        &&& post == pre
        &&& cap_post == cap_pre
    } else {
        &&& cap_post == (CapState {
            allocs: cap_pre.allocs.push(
                AllocCall {
                    device,
                    len: length_bytes_of(width, height, bytes_per_pixel),
                    result: alloc_result_of(r),
                },
            ),
            ..cap_pre
        })
        &&& (r matches Ok(view) ==> post.cached() == pre.cached().insert(k, view.buf))
    })
}

/// Law: `get_or_create` is idempotent for a fixed key. When a call for
/// `(device, width, height, bytes_per_pixel, tag)` has succeeded, a second
/// call with identical arguments returns a view over the same underlying
/// handle — the very same view, with `row_bytes == width * bytes_per_pixel`
/// (saturated) and `pitch_px == width` — and touches neither the cache nor
/// the capability: no second allocation happens.
pub proof fn lemma_get_or_create_idempotent(
    s0: BufferCache,
    s1: BufferCache,
    s2: BufferCache,
    p0: CapState,
    p1: CapState,
    p2: CapState,
    device: usize,
    width: u32,
    height: u32,
    bytes_per_pixel: u32,
    tag: u32,
    r1: Result<ImageBuffer, GpuError>,
    r2: Result<ImageBuffer, GpuError>,
)
    requires
        get_or_create_post(s0, s1, p0, p1, device, width, height, bytes_per_pixel, tag, r1),
        get_or_create_post(s1, s2, p1, p2, device, width, height, bytes_per_pixel, tag, r2),
        r1 is Ok,
    ensures
        r2 is Ok,
        r2->Ok_0 == r1->Ok_0,
        r1->Ok_0.row_bytes == row_bytes_of(width, bytes_per_pixel),
        r1->Ok_0.pitch_px == width,
        s2 == s1,
        p2 == p1,
{
}

/// Law: one key, one allocation. Starting from a cache that does not hold
/// the key, a first successful `get_or_create` performs exactly one
/// allocation, and a second call with the same key performs none and
/// observes the same handle — callers arriving after the first insertion
/// can never race a second allocation into existence for that key.
pub proof fn lemma_single_allocation_per_key(
    s0: BufferCache,
    s1: BufferCache,
    s2: BufferCache,
    p0: CapState,
    p1: CapState,
    p2: CapState,
    device: usize,
    width: u32,
    height: u32,
    bytes_per_pixel: u32,
    tag: u32,
    r1: Result<ImageBuffer, GpuError>,
    r2: Result<ImageBuffer, GpuError>,
)
    requires
        !s0.cached().contains_key(BufferKey { device, width, height, bytes_per_pixel, tag }),
        get_or_create_post(s0, s1, p0, p1, device, width, height, bytes_per_pixel, tag, r1),
        get_or_create_post(s1, s2, p1, p2, device, width, height, bytes_per_pixel, tag, r2),
        r1 is Ok,
    ensures
        p1.allocs.len() == p0.allocs.len() + 1,
        p2.allocs == p1.allocs,
        r2 is Ok,
        r2->Ok_0.buf == r1->Ok_0.buf,
{
}

/// Law: `cleanup` really empties the cache. A `get_or_create` right after a
/// cleanup triggers exactly one fresh allocation, for any key, even one that
/// was cached before the cleanup.
pub proof fn lemma_cleanup_forces_reallocation(
    s1: BufferCache,
    s2: BufferCache,
    p1: CapState,
    p2: CapState,
    device: usize,
    width: u32,
    height: u32,
    bytes_per_pixel: u32,
    tag: u32,
    r: Result<ImageBuffer, GpuError>,
)
    requires
        s1.cached() == Map::<BufferKey, BufferObj>::empty(),
        get_or_create_post(s1, s2, p1, p2, device, width, height, bytes_per_pixel, tag, r),
    ensures
        p2.allocs == p1.allocs.push(
            AllocCall {
                device,
                len: length_bytes_of(width, height, bytes_per_pixel),
                result: alloc_result_of(r),
            },
        ),
{
    assert(!s1.cached().contains_key(BufferKey { device, width, height, bytes_per_pixel, tag }));
}

/// The capability has never handed out the same buffer handle twice.
pub open spec fn fresh_alloc_results(p: CapState) -> bool {
    forall|i: int, j: int|
        0 <= i < j < p.allocs.len() && p.allocs[i].result is Some && p.allocs[j].result is Some
            ==> p.allocs[i].result != p.allocs[j].result
}

/// Law: distinct keys get distinct buffers. Two successful `get_or_create`
/// calls whose keys differ (in any field), each a miss, return distinct
/// underlying handles, provided the capability never returns a handle it
/// already returned.
pub proof fn lemma_distinct_keys_distinct_handles(
    s0: BufferCache,
    s1: BufferCache,
    s2: BufferCache,
    p0: CapState,
    p1: CapState,
    p2: CapState,
    k1: BufferKey,
    k2: BufferKey,
    r1: Result<ImageBuffer, GpuError>,
    r2: Result<ImageBuffer, GpuError>,
)
    requires
        k1 != k2,
        !s0.cached().contains_key(k1),
        !s0.cached().contains_key(k2),
        get_or_create_post(
            s0,
            s1,
            p0,
            p1,
            k1.device,
            k1.width,
            k1.height,
            k1.bytes_per_pixel,
            k1.tag,
            r1,
        ),
        get_or_create_post(
            s1,
            s2,
            p1,
            p2,
            k2.device,
            k2.width,
            k2.height,
            k2.bytes_per_pixel,
            k2.tag,
            r2,
        ),
        r1 is Ok,
        r2 is Ok,
        fresh_alloc_results(p2),
    ensures
        r1->Ok_0.buf != r2->Ok_0.buf,
{
    assert(BufferKey {
        device: k1.device,
        width: k1.width,
        height: k1.height,
        bytes_per_pixel: k1.bytes_per_pixel,
        tag: k1.tag,
    } == k1);
    assert(BufferKey {
        device: k2.device,
        width: k2.width,
        height: k2.height,
        bytes_per_pixel: k2.bytes_per_pixel,
        tag: k2.tag,
    } == k2);
    assert(!s1.cached().contains_key(k2));
    let n = p2.allocs.len();
    assert(p2.allocs[n - 2].result == Some(r1->Ok_0.buf.raw));
    assert(p2.allocs[n - 1].result == Some(r2->Ok_0.buf.raw));
}

} // verus!
