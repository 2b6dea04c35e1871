use oxideav_core::arena::{self, FrameHeader, MAX_PLANES};
use oxideav_core::error::Error;
use oxideav_core::format::PixelFormat;
use std::rc::Rc;
use std::sync::Arc;

fn mod_small_pool(slots: usize, cap: usize) -> arena::ArenaPool {
    arena::ArenaPool::new(slots, cap)
}

#[test]
fn mod_pool_lease_returns_err_when_exhausted() {
    let mut pool = mod_small_pool(2, 1024);
    let a = pool.lease().expect("first lease");
    let b = pool.lease().expect("second lease");
    let third = pool.lease();
    assert!(matches!(third, Err(Error::ResourceExhausted(_))));
    drop((a, b));
}

#[test]
fn mod_arena_alloc_caps_at_size_limit() {
    let mut pool = mod_small_pool(1, 64);
    let mut arena = pool.lease().unwrap();
    // 64 bytes capacity. Allocate 32 u8s — fits.
    let _ = arena.allocate::<u8>(32).unwrap();
    // Allocate another 32 u8s — exactly fills.
    let _ = arena.allocate::<u8>(32).unwrap();
    // Any further allocation fails.
    let third = arena.allocate::<u8>(1);
    assert!(matches!(third, Err(Error::ResourceExhausted(_))));
}

#[test]
fn mod_arena_alloc_count_cap_fires() {
    let mut pool = arena::ArenaPool::with_alloc_count_cap(1, 1024, 3);
    let mut arena = pool.lease().unwrap();
    let _ = arena.allocate::<u8>(1).unwrap();
    let _ = arena.allocate::<u8>(1).unwrap();
    let _ = arena.allocate::<u8>(1).unwrap();
    assert!(arena.alloc_count_exceeded());
    let fourth = arena.allocate::<u8>(1);
    assert!(matches!(fourth, Err(Error::ResourceExhausted(_))));
}

#[test]
fn mod_arena_returns_to_pool_on_drop() {
    // Giving up a lease is an explicit `release` here: the arena has no
    // destructor that could hand its slot back.
    let mut pool = mod_small_pool(1, 256);
    {
        let arena = pool.lease().expect("first lease");
        // Sanity: arena is leased; further leases would fail.
        assert!(matches!(pool.lease(), Err(Error::ResourceExhausted(_))));
        pool.release(arena);
    }
    // Arena returned — pool slot must be free again.
    let _again = pool.lease().expect("re-lease after release");
}

#[test]
fn mod_arena_alloc_can_return_misaligned_typed_slice() {
    // An empty allocation of a wider type from an empty arena is a
    // zero-length range at offset 0.
    let mut pool = mod_small_pool(1, 0);
    let mut arena = pool.lease().unwrap();
    assert_eq!(arena.allocate::<u32>(0).unwrap(), (0, 0));
}

#[test]
fn mod_arena_alloc_allows_invalid_bit_patterns_for_copy_types() {
    // The arena hands out byte ranges, never typed values, so a type
    // with invalid bit patterns only gets its byte range.
    let mut pool = mod_small_pool(1, 1);
    let mut arena = pool.lease().unwrap();
    let (offset, length) = arena.allocate::<std::num::NonZeroU8>(1).unwrap();
    assert_eq!((offset, length), (0, 1));
    assert_eq!(arena.bytes()[offset], 0);
}

#[test]
fn mod_arena_alloc_second_slice_invalidates_first_mut_reference() {
    // Two allocations are disjoint byte ranges; writing both keeps both.
    let mut pool = mod_small_pool(1, 2);
    let mut arena = pool.lease().unwrap();
    let first = arena.allocate::<u8>(1).unwrap();
    let second = arena.allocate::<u8>(1).unwrap();
    arena.write_bytes(first.0, &[1]);
    arena.write_bytes(second.0, &[2]);
    assert_eq!(arena.bytes(), &[1, 2]);
}

fn mod_build_simple_frame(pool: &mut arena::ArenaPool) -> arena::Frame {
    let mut arena = pool.lease().unwrap();
    // Allocate 16 bytes for plane 0.
    let (offset, length) = arena.allocate::<u8>(16).unwrap();
    let data: Vec<u8> = (0..length).map(|i| i as u8).collect();
    arena.write_bytes(offset, &data);
    let header = FrameHeader::new(4, 4, PixelFormat::Gray8, Some(42));
    match arena::FrameInner::new(arena, &[(0, 16)], header) {
        Ok(f) => f,
        Err(_) => panic!("valid frame"),
    }
}

#[test]
fn mod_frame_refcount_keeps_arena_alive() {
    let mut pool = mod_small_pool(1, 256);
    let frame = mod_build_simple_frame(&mut pool);
    let clone = Rc::clone(&frame);
    drop(frame);
    // Clone is still valid; arena still leased.
    let plane = clone.plane(0).expect("plane 0");
    assert_eq!(plane.len(), 16);
    for (i, b) in plane.iter().enumerate() {
        assert_eq!(*b, i as u8);
    }
    assert_eq!(clone.header().width, 4);
    assert_eq!(clone.header().height, 4);
    assert_eq!(clone.header().presentation_timestamp, Some(42));
    // Pool still exhausted because clone holds the arena.
    assert!(matches!(pool.lease(), Err(Error::ResourceExhausted(_))));
}

#[test]
fn mod_last_drop_returns_arena_to_pool() {
    // Dropping a frame handle returns nothing by itself; the last
    // handle's arena goes back through `release`.
    let mut pool = mod_small_pool(1, 256);
    let frame = mod_build_simple_frame(&mut pool);
    let clone = Rc::clone(&frame);
    drop(frame);
    // The last handle gives its arena back to the pool.
    let inner = Rc::try_unwrap(clone).ok().expect("last handle");
    pool.release(inner.into_arena());
    let _again = pool.lease().expect("lease after last drop");
}

#[test]
fn mod_frame_rejects_too_many_planes() {
    let mut pool = mod_small_pool(1, 256);
    let arena = pool.lease().unwrap();
    let header = FrameHeader::new(1, 1, PixelFormat::Gray8, None);
    let too_many = vec![(0usize, 0usize); MAX_PLANES + 1];
    let r = arena::FrameInner::new(arena, &too_many, header);
    assert!(matches!(r, Err((Error::InvalidData(_), _))));
}

#[test]
fn mod_frame_rejects_plane_outside_arena() {
    let mut pool = mod_small_pool(1, 64);
    let arena = pool.lease().unwrap();
    // arena.used() == 0; any non-empty plane is out of range.
    let header = FrameHeader::new(1, 1, PixelFormat::Gray8, None);
    let r = arena::FrameInner::new(arena, &[(0, 16)], header);
    assert!(matches!(r, Err((Error::InvalidData(_), _))));
}

#[test]
fn mod_pool_outlives_buffer_drop_when_pool_dropped_first() {
    // Exotic: arena outlives its pool. Buffer just frees normally.
    let mut pool = mod_small_pool(1, 64);
    let arena = pool.lease().unwrap();
    drop(pool);
    drop(arena);
}

#[test]
fn mod_arena_reset_clears_allocations() {
    let mut pool = mod_small_pool(1, 32);
    let mut arena = pool.lease().unwrap();
    let _ = arena.allocate::<u8>(32).unwrap();
    // Cap reached.
    assert!(matches!(
        arena.allocate::<u8>(1),
        Err(Error::ResourceExhausted(_))
    ));
    arena.reset();
    // After reset we can allocate again.
    let _ = arena.allocate::<u8>(32).unwrap();
}

fn sync_small_pool(slots: usize, cap: usize) -> arena::sync::ArenaPool {
    arena::sync::ArenaPool::new(slots, cap)
}

#[test]
fn sync_pool_lease_returns_err_when_exhausted() {
    let mut pool = sync_small_pool(2, 1024);
    let a = pool.lease().expect("first lease");
    let b = pool.lease().expect("second lease");
    let third = pool.lease();
    assert!(matches!(third, Err(Error::ResourceExhausted(_))));
    drop((a, b));
}

#[test]
fn sync_arena_alloc_caps_at_size_limit() {
    let mut pool = sync_small_pool(1, 64);
    let mut arena = pool.lease().unwrap();
    // 64 bytes capacity. Allocate 32 u8s — fits.
    let _ = arena.allocate::<u8>(32).unwrap();
    // Allocate another 32 u8s — exactly fills.
    let _ = arena.allocate::<u8>(32).unwrap();
    // Any further allocation fails.
    let third = arena.allocate::<u8>(1);
    assert!(matches!(third, Err(Error::ResourceExhausted(_))));
}

#[test]
fn sync_arena_alloc_count_cap_fires() {
    let mut pool = arena::sync::ArenaPool::with_alloc_count_cap(1, 1024, 3);
    let mut arena = pool.lease().unwrap();
    let _ = arena.allocate::<u8>(1).unwrap();
    let _ = arena.allocate::<u8>(1).unwrap();
    let _ = arena.allocate::<u8>(1).unwrap();
    assert!(arena.alloc_count_exceeded());
    let fourth = arena.allocate::<u8>(1);
    assert!(matches!(fourth, Err(Error::ResourceExhausted(_))));
}

#[test]
fn sync_arena_returns_to_pool_on_drop() {
    let mut pool = sync_small_pool(1, 256);
    {
        let arena = pool.lease().expect("first lease");
        // Sanity: arena is leased; further leases would fail.
        assert!(matches!(pool.lease(), Err(Error::ResourceExhausted(_))));
        pool.release(arena);
    }
    // Arena returned — pool slot must be free again.
    let _again = pool.lease().expect("re-lease after release");
}

#[test]
fn sync_arena_alloc_can_return_misaligned_typed_slice() {
    // An empty allocation of a wider type from an empty arena is a
    // zero-length range at offset 0.
    let mut pool = sync_small_pool(1, 0);
    let mut arena = pool.lease().unwrap();
    assert_eq!(arena.allocate::<u32>(0).unwrap(), (0, 0));
}

#[test]
fn sync_arena_alloc_allows_invalid_bit_patterns_for_copy_types() {
    // The arena hands out byte ranges, never typed values, so a type
    // with invalid bit patterns only gets its byte range.
    let mut pool = sync_small_pool(1, 1);
    let mut arena = pool.lease().unwrap();
    let (offset, length) = arena.allocate::<std::num::NonZeroU8>(1).unwrap();
    assert_eq!((offset, length), (0, 1));
    assert_eq!(arena.bytes()[offset], 0);
}

#[test]
fn sync_arena_alloc_second_slice_invalidates_first_mut_reference() {
    // Two allocations are disjoint byte ranges; writing both keeps both.
    let mut pool = sync_small_pool(1, 2);
    let mut arena = pool.lease().unwrap();
    let first = arena.allocate::<u8>(1).unwrap();
    let second = arena.allocate::<u8>(1).unwrap();
    arena.write_bytes(first.0, &[1]);
    arena.write_bytes(second.0, &[2]);
    assert_eq!(arena.bytes(), &[1, 2]);
}

fn sync_build_simple_frame(pool: &mut arena::sync::ArenaPool) -> arena::sync::Frame {
    let mut arena = pool.lease().unwrap();
    // Allocate 16 bytes for plane 0.
    let (offset, length) = arena.allocate::<u8>(16).unwrap();
    let data: Vec<u8> = (0..length).map(|i| i as u8).collect();
    arena.write_bytes(offset, &data);
    let header = FrameHeader::new(4, 4, PixelFormat::Gray8, Some(42));
    match arena::sync::FrameInner::new(arena, &[(0, 16)], header) {
        Ok(f) => f,
        Err(_) => panic!("valid frame"),
    }
}

#[test]
fn sync_frame_refcount_keeps_arena_alive() {
    let mut pool = sync_small_pool(1, 256);
    let frame = sync_build_simple_frame(&mut pool);
    let clone = Arc::clone(&frame);
    drop(frame);
    // Clone is still valid; arena still leased.
    let plane = clone.plane(0).expect("plane 0");
    assert_eq!(plane.len(), 16);
    for (i, b) in plane.iter().enumerate() {
        assert_eq!(*b, i as u8);
    }
    assert_eq!(clone.header().width, 4);
    assert_eq!(clone.header().height, 4);
    assert_eq!(clone.header().presentation_timestamp, Some(42));
    // Pool still exhausted because clone holds the arena.
    assert!(matches!(pool.lease(), Err(Error::ResourceExhausted(_))));
}

#[test]
fn sync_last_drop_returns_arena_to_pool() {
    let mut pool = sync_small_pool(1, 256);
    let frame = sync_build_simple_frame(&mut pool);
    let clone = Arc::clone(&frame);
    drop(frame);
    // The last handle gives its arena back to the pool.
    let inner = Arc::try_unwrap(clone).ok().expect("last handle");
    pool.release(inner.into_arena());
    let _again = pool.lease().expect("lease after last drop");
}

#[test]
fn sync_frame_rejects_too_many_planes() {
    let mut pool = sync_small_pool(1, 256);
    let arena = pool.lease().unwrap();
    let header = FrameHeader::new(1, 1, PixelFormat::Gray8, None);
    let too_many = vec![(0usize, 0usize); MAX_PLANES + 1];
    let r = arena::sync::FrameInner::new(arena, &too_many, header);
    assert!(matches!(r, Err((Error::InvalidData(_), _))));
}

#[test]
fn sync_frame_rejects_plane_outside_arena() {
    let mut pool = sync_small_pool(1, 64);
    let arena = pool.lease().unwrap();
    // arena.used() == 0; any non-empty plane is out of range.
    let header = FrameHeader::new(1, 1, PixelFormat::Gray8, None);
    let r = arena::sync::FrameInner::new(arena, &[(0, 16)], header);
    assert!(matches!(r, Err((Error::InvalidData(_), _))));
}

#[test]
fn sync_pool_outlives_buffer_drop_when_pool_dropped_first() {
    // Exotic: arena outlives its pool. Buffer just frees normally.
    let mut pool = sync_small_pool(1, 64);
    let arena = pool.lease().unwrap();
    drop(pool);
    drop(arena);
}

#[test]
fn sync_arena_reset_clears_allocations() {
    let mut pool = sync_small_pool(1, 32);
    let mut arena = pool.lease().unwrap();
    let _ = arena.allocate::<u8>(32).unwrap();
    // Cap reached.
    assert!(matches!(
        arena.allocate::<u8>(1),
        Err(Error::ResourceExhausted(_))
    ));
    arena.reset();
    // After reset we can allocate again.
    let _ = arena.allocate::<u8>(32).unwrap();
}

fn assert_send_sync<T: Send + Sync>() {}

#[test]
fn types_are_send_sync() {
    assert_send_sync::<arena::sync::ArenaPool>();
    assert_send_sync::<arena::sync::Arena>();
    assert_send_sync::<arena::sync::Frame>();
    assert_send_sync::<arena::sync::FrameInner>();
}

// ───────────── further cases ─────────────

#[test]
fn allocations_are_aligned_and_contiguous() {
    let mut pool = arena::ArenaPool::new(1, 64);
    let mut a = pool.lease().unwrap();
    assert_eq!(a.allocate::<u8>(3).unwrap(), (0, 3));
    // A u32 allocation rounds the cursor up to its alignment.
    let (off, len) = a.allocate::<u32>(2).unwrap();
    assert_eq!(off % std::mem::align_of::<u32>(), 0);
    assert_eq!(off, 4);
    assert_eq!(len, 8);
    assert_eq!(a.used(), 12);
    assert_eq!(a.alloc_count(), 2);
    assert_eq!(a.capacity(), 64);
}

#[test]
fn cap_errors_carry_the_documented_messages() {
    let mut pool = arena::ArenaPool::with_alloc_count_cap(1, 8, 1);
    assert_eq!(pool.cap_per_arena(), 8);
    assert_eq!(pool.max_arenas(), 1);
    let mut a = pool.lease().unwrap();
    match a.allocate::<u8>(9) {
        Err(Error::ResourceExhausted(m)) => {
            assert_eq!(m, "Arena cap of 8 bytes exceeded (would consume 9 bytes)")
        }
        _ => panic!("expected the byte cap"),
    }
    let _ = a.allocate::<u8>(8).unwrap();
    match a.allocate::<u8>(0) {
        Err(Error::ResourceExhausted(m)) => assert_eq!(m, "Arena alloc-count cap of 1 exceeded"),
        _ => panic!("expected the count cap"),
    }
    match a.allocate::<u64>(usize::MAX) {
        Err(Error::ResourceExhausted(_)) => {}
        _ => panic!("expected an error"),
    }
    match pool.lease() {
        Err(Error::ResourceExhausted(m)) => {
            assert_eq!(m, "ArenaPool exhausted: all 1 arenas checked out")
        }
        _ => panic!("expected exhaustion"),
    }
}

#[test]
fn size_overflow_is_reported() {
    let mut pool = arena::ArenaPool::new(1, 8);
    let mut a = pool.lease().unwrap();
    match a.allocate::<u64>(usize::MAX) {
        Err(Error::ResourceExhausted(m)) => assert_eq!(m, "Arena alloc size overflow"),
        _ => panic!("expected overflow"),
    }
    assert_eq!(a.used(), 0);
    assert_eq!(a.alloc_count(), 0);
}

#[test]
fn released_buffers_are_reused_and_fresh_ones_zeroed() {
    let mut pool = arena::ArenaPool::new(2, 4);
    let mut a = pool.lease().unwrap();
    assert_eq!(a.bytes(), &[0, 0, 0, 0]);
    a.write_bytes(0, &[9, 9, 9, 9]);
    pool.release(a);
    let b = pool.lease().unwrap();
    assert_eq!(b.bytes(), &[9, 9, 9, 9]);
    assert_eq!(b.used(), 0);
    // A buffer of the wrong size is not taken into the pool.
    let mut other = arena::ArenaPool::new(1, 2);
    let foreign = other.lease().unwrap();
    pool.release(foreign);
    let c = pool.lease().unwrap();
    assert_eq!(c.capacity(), 4);
    assert!(pool.lease().is_err());
    drop((b, c));
}

#[test]
fn frame_plane_errors_name_the_plane() {
    let mut pool = arena::ArenaPool::new(1, 64);
    let mut a = pool.lease().unwrap();
    let _ = a.allocate::<u8>(10).unwrap();
    let header = FrameHeader::new(1, 1, PixelFormat::Gray8, None);
    match arena::FrameInner::new(a, &[(0, 4), (4, 8)], header) {
        Err((Error::InvalidData(m), back)) => {
            assert_eq!(m, "plane 1: range 4..12 exceeds arena used=10");
            assert_eq!(back.used(), 10);
        }
        _ => panic!("expected InvalidData"),
    }
    let a = pool.lease();
    assert!(a.is_err());
    let mut pool2 = arena::ArenaPool::new(1, 64);
    let a2 = pool2.lease().unwrap();
    match arena::FrameInner::new(a2, &[(usize::MAX, 1)], header) {
        Err((Error::InvalidData(m), _)) => assert_eq!(m, "plane 0: offset+len overflow"),
        _ => panic!("expected InvalidData"),
    }
    let a3 = pool2.lease();
    assert!(a3.is_err());
    let mut pool3 = arena::ArenaPool::new(1, 64);
    let a4 = pool3.lease().unwrap();
    match arena::FrameInner::new(a4, &[(0, 0); 5], header) {
        Err((Error::InvalidData(m), _)) => {
            assert_eq!(m, "FrameInner supports at most 4 planes (got 5)")
        }
        _ => panic!("expected InvalidData"),
    }
}

#[test]
fn frame_planes_read_their_ranges() {
    let mut pool = arena::ArenaPool::new(1, 16);
    let mut a = pool.lease().unwrap();
    let (o1, _) = a.allocate::<u8>(2).unwrap();
    let (o2, _) = a.allocate::<u8>(3).unwrap();
    a.write_bytes(o1, &[1, 2]);
    a.write_bytes(o2, &[3, 4, 5]);
    let header = FrameHeader::new(2, 1, PixelFormat::Gray8, None);
    let f = match arena::FrameInner::new(a, &[(o1, 2), (o2, 3)], header) {
        Ok(f) => f,
        Err(_) => panic!("valid planes"),
    };
    assert_eq!(f.plane_count(), 2);
    assert_eq!(f.plane(0), Some(&[1u8, 2][..]));
    assert_eq!(f.plane(1), Some(&[3u8, 4, 5][..]));
    assert_eq!(f.plane(2), None);
}
