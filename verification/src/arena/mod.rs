//! Arena pool for decoder frame allocations.
//!
//! - [`ArenaPool`] — a pool of reusable byte buffers that a decoder
//!   leases from. Pool size and per-buffer capacity are fixed at
//!   construction; together they bound peak memory
//!   (`max_arenas × cap_per_arena`). Buffers are allocated lazily, on
//!   first lease.
//! - [`Arena`] — one buffer leased from the pool. Allocations are
//!   bump-pointer: each carves the next aligned byte range out of the
//!   buffer, within a byte cap and an allocation-count cap. An arena
//!   goes back to the pool with [`ArenaPool::release`], which makes its
//!   slot available to the next lease.
//! - [`FrameInner`] / [`Frame`] — a refcounted frame that owns an
//!   arena plus up to [`MAX_PLANES`] validated `(offset, length)` plane
//!   ranges and a [`FrameHeader`].

pub mod sync;

use crate::error::Error;
use crate::format::PixelFormat;
use crate::text::{append_decimal, decimal_chars};
use std::rc::Rc;
use vstd::prelude::*;
use vstd::string::*;

verus! {

// ───────────────────────── alignment ─────────────────────────

/// `n` rounded up to the next multiple of `align`.
pub open spec fn round_up(n: int, align: int) -> int {
    ((n + align - 1) / align) * align
}

/// `n` rounded up to a multiple of `align` (non-zero), or `None` when
/// `n + align - 1` does not fit in a `usize`.
fn align_up(n: usize, align: usize) -> (r: Option<usize>)
    requires
        align > 0,
    ensures
        match r {
            Some(m) => n + align - 1 <= usize::MAX && m == round_up(n as int, align as int),
            None => n + align - 1 > usize::MAX,
        },
{
    match n.checked_add(align - 1) {
        Some(m) => {
            let r = m - m % align;
            assert(r == round_up(n as int, align as int)) by {
                vstd::arithmetic::div_mod::lemma_fundamental_div_mod(m as int, align as int);
                vstd::arithmetic::mul::lemma_mul_is_commutative(align as int, (m / align) as int);
            }
            Some(r)
        },
        None => None,
    }
}

proof fn lemma_round_up_bounds(n: int, align: int)
    requires
        n >= 0,
        align > 0,
    ensures
        n <= round_up(n, align) <= n + align - 1,
{
    let m = n + align - 1;
    vstd::arithmetic::div_mod::lemma_fundamental_div_mod(m, align);
    vstd::arithmetic::mul::lemma_mul_is_commutative(align, m / align);
    assert(0 <= m % align < align) by {
        vstd::arithmetic::div_mod::lemma_mod_bound(m, align);
    }
}

// ───────────────────────── messages ─────────────────────────

/// The message of the error for an exhausted pool.
pub open spec fn pool_exhausted_message(max_arenas: nat) -> Seq<char> {
    "ArenaPool exhausted: all "@ + decimal_chars(max_arenas) + " arenas checked out"@
}

/// The message of the error for an exceeded allocation-count cap.
pub open spec fn count_cap_message(cap: nat) -> Seq<char> {
    "Arena alloc-count cap of "@ + decimal_chars(cap) + " exceeded"@
}

/// The message of the error for an exceeded byte cap.
pub open spec fn byte_cap_message(cap: nat, would_consume: nat) -> Seq<char> {
    "Arena cap of "@ + decimal_chars(cap) + " bytes exceeded (would consume "@ + decimal_chars(
        would_consume,
    ) + " bytes)"@
}

// ───────────────────────── arenas ─────────────────────────

/// What an [`Arena`] holds: its buffer, how much of it is used, and its
/// caps.
pub struct ArenaView {
    /// The buffer's bytes.
    pub bytes: Seq<u8>,
    /// Bytes consumed by allocations so far (the bump cursor).
    pub used: nat,
    /// Allocations performed so far.
    pub alloc_count: nat,
    /// Capacity in bytes.
    pub capacity: nat,
    /// Cap on the number of allocations.
    pub alloc_count_cap: nat,
}

/// One buffer leased from an [`ArenaPool`].
///
/// Allocations are bump-pointer: each call to [`Arena::allocate`] carves
/// out the next aligned byte range of the buffer. There is no
/// per-allocation header and no individual free; [`Arena::reset`]
/// empties the arena, and [`ArenaPool::release`] returns its buffer to
/// the pool.
pub struct Arena {
    buffer: Vec<u8>,
    cursor: usize,
    alloc_count: u32,
    cap: usize,
    alloc_count_cap: u32,
}

impl View for Arena {
    type V = ArenaView;

    closed spec fn view(&self) -> ArenaView {
        ArenaView {
            bytes: self.buffer@,
            used: self.cursor as nat,
            alloc_count: self.alloc_count as nat,
            capacity: self.cap as nat,
            alloc_count_cap: self.alloc_count_cap as nat,
        }
    }
}

/// The outcome of allocating `count` elements of `size` bytes at
/// alignment `align` from an arena in state `a`: the byte range
/// `(offset, length)` it gets, or the message of the
/// `Error::ResourceExhausted` it fails with.
pub open spec fn alloc_outcome(a: ArenaView, size: nat, align: nat, count: nat) -> Result<
    (nat, nat),
    Seq<char>,
> {
    let next_count = a.alloc_count + 1;
    let bytes = size * count;
    if next_count > u32::MAX {
        Err("Arena alloc_count overflow"@)
    } else if next_count > a.alloc_count_cap {
        Err(count_cap_message(a.alloc_count_cap))
    } else if bytes > usize::MAX {
        Err("Arena alloc size overflow"@)
    } else if a.used + align - 1 > usize::MAX {
        Err("Arena cursor alignment overflow"@)
    } else if round_up(a.used as int, align as int) + bytes > usize::MAX {
        Err("Arena cursor advance overflow"@)
    } else if round_up(a.used as int, align as int) + bytes > a.capacity {
        Err(byte_cap_message(a.capacity, (round_up(a.used as int, align as int) + bytes) as nat))
    } else {
        Ok((round_up(a.used as int, align as int) as nat, bytes))
    }
}

impl Arena {
    /// The buffer spans the capacity, the cursor stays within it, and the
    /// allocation count within its cap.
    pub open spec fn wf(self) -> bool {
        &&& self@.bytes.len() == self@.capacity
        &&& self@.used <= self@.capacity
        &&& self@.alloc_count <= self@.alloc_count_cap
        &&& self@.capacity <= usize::MAX
        &&& self@.alloc_count_cap <= u32::MAX
    }

    /// Capacity of this arena in bytes.
    pub fn capacity(&self) -> (r: usize)
        ensures
            r == self@.capacity,
    {
        self.cap
    }

    /// Bytes consumed by allocations so far.
    pub fn used(&self) -> (r: usize)
        ensures
            r == self@.used,
    {
        self.cursor
    }

    /// Number of allocations performed so far.
    pub fn alloc_count(&self) -> (r: u32)
        ensures
            r == self@.alloc_count,
    {
        self.alloc_count
    }

    /// `true` once the allocation-count cap has been reached, so that
    /// the next [`allocate`](Self::allocate) fails.
    pub fn alloc_count_exceeded(&self) -> (r: bool)
        ensures
            r == (self@.alloc_count >= self@.alloc_count_cap),
    {
        self.alloc_count >= self.alloc_count_cap
    }

    /// Allocate `count` values of type `T` out of this arena: the next
    /// `size_of::<T>() * count` bytes, starting at the cursor rounded up
    /// to `align_of::<T>()`. Returns the allocated byte range as
    /// `(offset, length)`; its bytes are reached through
    /// [`bytes_mut`](Self::bytes_mut).
    ///
    /// Returns `Error::ResourceExhausted` if either the byte cap or the
    /// allocation-count cap would be exceeded, or a computation would
    /// overflow; the arena is then unchanged.
    pub fn allocate<T: Copy>(&mut self, count: usize) -> (r: Result<(usize, usize), Error>)
        requires
            old(self).wf(),
        ensures
            final(self).wf(),
            final(self)@.capacity == old(self)@.capacity,
            final(self)@.alloc_count_cap == old(self)@.alloc_count_cap,
            final(self)@.bytes == old(self)@.bytes,
            match alloc_outcome(
                old(self)@,
                vstd::layout::size_of::<T>(),
                vstd::layout::align_of::<T>(),
                count as nat,
            ) {
                Ok((offset, length)) => {
                    &&& r == Ok::<(usize, usize), Error>((offset as usize, length as usize))
                    &&& final(self)@.used == offset + length
                    &&& final(self)@.alloc_count == old(self)@.alloc_count + 1
                },
                Err(msg) => {
                    &&& r matches Err(Error::ResourceExhausted(m)) && m@ == msg
                    &&& final(self)@ == old(self)@
                },
            },
    {
        vstd::layout::layout_for_type_is_valid::<T>();
        let next_count = match self.alloc_count.checked_add(1) {
            Some(n) => n,
            None => {
                return Err(Error::resource_exhausted("Arena alloc_count overflow"));
            },
        };
        if next_count > self.alloc_count_cap {
            let mut msg = String::from_str("Arena alloc-count cap of ");
            append_decimal(&mut msg, self.alloc_count_cap as u64);
            msg.append(" exceeded");
            return Err(Error::ResourceExhausted(msg));
        }
        let elem_size = core::mem::size_of::<T>();
        let elem_align = core::mem::align_of::<T>();
        let bytes = match elem_size.checked_mul(count) {
            Some(b) => b,
            None => {
                return Err(Error::resource_exhausted("Arena alloc size overflow"));
            },
        };
        let aligned = match align_up(self.cursor, elem_align) {
            Some(a) => a,
            None => {
                return Err(Error::resource_exhausted("Arena cursor alignment overflow"));
            },
        };
        let new_cursor = match aligned.checked_add(bytes) {
            Some(c) => c,
            None => {
                return Err(Error::resource_exhausted("Arena cursor advance overflow"));
            },
        };
        if new_cursor > self.cap {
            let mut msg = String::from_str("Arena cap of ");
            append_decimal(&mut msg, self.cap as u64);
            msg.append(" bytes exceeded (would consume ");
            append_decimal(&mut msg, new_cursor as u64);
            msg.append(" bytes)");
            return Err(Error::ResourceExhausted(msg));
        }
        self.cursor = new_cursor;
        self.alloc_count = next_count;
        Ok((aligned, bytes))
    }

    /// The arena's buffer.
    pub fn bytes(&self) -> (r: &[u8])
        ensures
            r@ == self@.bytes,
    {
        self.buffer.as_slice()
    }

    /// The arena's buffer, for filling allocated ranges.
    pub fn bytes_mut(&mut self) -> (r: &mut [u8])
        ensures
            r@ == old(self)@.bytes,
            final(r)@.len() == old(self)@.bytes.len() ==> final(self)@ == (ArenaView {
                bytes: final(r)@,
                ..old(self)@
            }),
    {
        self.buffer.as_mut_slice()
    }

    /// Copy `data` into the buffer at `offset` — typically into a range
    /// returned by [`allocate`](Self::allocate).
    pub fn write_bytes(&mut self, offset: usize, data: &[u8])
        requires
            old(self).wf(),
            offset + data@.len() <= old(self)@.bytes.len(),
        ensures
            final(self).wf(),
            final(self)@ == (ArenaView {
                bytes: old(self)@.bytes.subrange(0, offset as int) + data@ + old(
                    self,
                )@.bytes.subrange(offset + data@.len(), old(self)@.bytes.len() as int),
                ..old(self)@
            }),
    {
        let ghost before = self.buffer@;
        let n = self.buffer.len();
        let mut j: usize = 0;
        while j < data.len()
            invariant
                n == before.len(),
                offset + data@.len() <= before.len(),
                self.cursor == old(self).cursor,
                self.alloc_count == old(self).alloc_count,
                self.cap == old(self).cap,
                self.alloc_count_cap == old(self).alloc_count_cap,
                self.buffer@.len() == before.len(),
                j <= data@.len(),
                forall|k: int|
                    0 <= k < before.len() ==> #[trigger] self.buffer@[k] == if offset <= k < offset
                        + j {
                        data@[k - offset]
                    } else {
                        before[k]
                    },
            decreases data@.len() - j,
        {
            self.buffer[offset + j] = data[j];
            j += 1;
        }
        assert(self.buffer@ =~= before.subrange(0, offset as int) + data@ + before.subrange(
            offset + data@.len(),
            before.len() as int,
        ));
    }

    /// Reset the arena to empty, keeping its buffer.
    pub fn reset(&mut self)
        requires
            old(self).wf(),
        ensures
            final(self).wf(),
            final(self)@ == (ArenaView { used: 0, alloc_count: 0, ..old(self)@ }),
    {
        self.cursor = 0;
        self.alloc_count = 0;
    }
}

/// Allocation never goes backwards or past the capacity: a successful
/// allocation starts at or after the cursor and ends within the
/// capacity, so two successive allocations from one arena cover
/// disjoint byte ranges.
pub proof fn law_alloc_range_is_fresh(a: ArenaView, size: nat, align: nat, count: nat)
    requires
        align > 0,
        alloc_outcome(a, size, align, count) is Ok,
    ensures
        ({
            let (offset, length) = alloc_outcome(a, size, align, count)->Ok_0;
            a.used <= offset && offset + length <= a.capacity
        }),
{
    lemma_round_up_bounds(a.used as int, align as int);
}

/// Successive allocations are disjoint: the second starts at or after
/// the end of the first.
pub proof fn law_successive_allocations_disjoint(
    a: ArenaView,
    size1: nat,
    align1: nat,
    count1: nat,
    size2: nat,
    align2: nat,
    count2: nat,
)
    requires
        align1 > 0,
        align2 > 0,
        alloc_outcome(a, size1, align1, count1) is Ok,
        ({
            let (o1, l1) = alloc_outcome(a, size1, align1, count1)->Ok_0;
            alloc_outcome(
                ArenaView { used: o1 + l1, alloc_count: a.alloc_count + 1, ..a },
                size2,
                align2,
                count2,
            ) is Ok
        }),
    ensures
        ({
            let (o1, l1) = alloc_outcome(a, size1, align1, count1)->Ok_0;
            let (o2, l2) = alloc_outcome(
                ArenaView { used: o1 + l1, alloc_count: a.alloc_count + 1, ..a },
                size2,
                align2,
                count2,
            )->Ok_0;
            o1 + l1 <= o2 && o2 + l2 <= a.capacity
        }),
{
    let (o1, l1) = alloc_outcome(a, size1, align1, count1)->Ok_0;
    let a2 = ArenaView { used: o1 + l1, alloc_count: a.alloc_count + 1, ..a };
    law_alloc_range_is_fresh(a2, size2, align2, count2);
}

/// The allocation-count cap holds: once `alloc_count_exceeded` is true,
/// every allocation fails.
pub proof fn law_count_cap_blocks_alloc(a: ArenaView, size: nat, align: nat, count: nat)
    requires
        a.alloc_count >= a.alloc_count_cap,
    ensures
        alloc_outcome(a, size, align, count) is Err,
{
}

// ───────────────────────── the pool ─────────────────────────

/// What an [`ArenaPool`] holds: its caps, how many buffers it has
/// allocated, and which of them sit idle.
pub struct ArenaPoolView {
    /// The idle buffers, most recently returned last.
    pub idle: Seq<Seq<u8>>,
    /// Buffers ever allocated by this pool (idle + checked out).
    pub total_allocated: nat,
    /// Capacity of each buffer, in bytes.
    pub cap_per_arena: nat,
    /// Maximum number of arenas checked out at once.
    pub max_arenas: nat,
    /// Allocation-count cap given to each arena.
    pub max_alloc_count_per_arena: nat,
}

impl ArenaPoolView {
    /// Arenas currently checked out.
    pub open spec fn in_flight(self) -> int {
        self.total_allocated - self.idle.len()
    }
}

/// Pool of reusable byte buffers for arena-backed frame allocations.
///
/// Lease an [`Arena`] per frame with [`ArenaPool::lease`] and give it
/// back with [`ArenaPool::release`]. When all `max_arenas` slots are
/// checked out the next lease returns `Error::ResourceExhausted`: a
/// decoder that hits this should surface the error rather than
/// busy-loop.
pub struct ArenaPool {
    idle: Vec<Vec<u8>>,
    total_allocated: usize,
    cap_per_arena: usize,
    max_arenas: usize,
    max_alloc_count_per_arena: u32,
}

impl View for ArenaPool {
    type V = ArenaPoolView;

    closed spec fn view(&self) -> ArenaPoolView {
        ArenaPoolView {
            idle: self.idle@.map_values(|b: Vec<u8>| b@),
            total_allocated: self.total_allocated as nat,
            cap_per_arena: self.cap_per_arena as nat,
            max_arenas: self.max_arenas as nat,
            max_alloc_count_per_arena: self.max_alloc_count_per_arena as nat,
        }
    }
}

impl ArenaPool {
    /// Idle buffers are among those allocated, no more than
    /// `max_arenas` are ever allocated, and every idle buffer spans the
    /// per-arena capacity.
    pub open spec fn wf(self) -> bool {
        &&& self@.idle.len() <= self@.total_allocated <= self@.max_arenas
        &&& self@.max_arenas <= usize::MAX
        &&& self@.cap_per_arena <= usize::MAX
        &&& self@.max_alloc_count_per_arena <= u32::MAX
        &&& forall|i: int|
            0 <= i < self@.idle.len() ==> (#[trigger] self@.idle[i]).len() == self@.cap_per_arena
    }

    /// A pool with `max_arenas` buffer slots of `cap_per_arena` bytes
    /// each, and an allocation-count cap of 1 000 000 per arena. A fresh
    /// pool holds no memory.
    pub fn new(max_arenas: usize, cap_per_arena: usize) -> (p: ArenaPool)
        ensures
            p.wf(),
            p@ == (ArenaPoolView {
                idle: Seq::empty(),
                total_allocated: 0,
                cap_per_arena: cap_per_arena as nat,
                max_arenas: max_arenas as nat,
                max_alloc_count_per_arena: 1_000_000,
            }),
    {
        Self::with_alloc_count_cap(max_arenas, cap_per_arena, 1_000_000)
    }

    /// Like [`ArenaPool::new`], with the per-arena allocation-count cap
    /// given.
    pub fn with_alloc_count_cap(
        max_arenas: usize,
        cap_per_arena: usize,
        max_alloc_count_per_arena: u32,
    ) -> (p: ArenaPool)
        ensures
            p.wf(),
            p@ == (ArenaPoolView {
                idle: Seq::empty(),
                total_allocated: 0,
                cap_per_arena: cap_per_arena as nat,
                max_arenas: max_arenas as nat,
                max_alloc_count_per_arena: max_alloc_count_per_arena as nat,
            }),
    {
        let p = ArenaPool {
            idle: Vec::new(),
            total_allocated: 0,
            cap_per_arena,
            max_arenas,
            max_alloc_count_per_arena,
        };
        assert(p@.idle =~= Seq::<Seq<u8>>::empty());
        p
    }

    /// Capacity of each arena buffer this pool hands out, in bytes.
    pub fn cap_per_arena(&self) -> (r: usize)
        ensures
            r == self@.cap_per_arena,
    {
        self.cap_per_arena
    }

    /// Maximum number of arenas that may be checked out at once.
    pub fn max_arenas(&self) -> (r: usize)
        ensures
            r == self@.max_arenas,
    {
        self.max_arenas
    }

    /// Lease one arena: the most recently returned idle buffer, or a
    /// fresh zero-filled one while fewer than `max_arenas` have been
    /// allocated. Returns `Error::ResourceExhausted` if every slot is
    /// already checked out.
    pub fn lease(&mut self) -> (r: Result<Arena, Error>)
        requires
            old(self).wf(),
        ensures
            final(self).wf(),
            final(self)@.cap_per_arena == old(self)@.cap_per_arena,
            final(self)@.max_arenas == old(self)@.max_arenas,
            final(self)@.max_alloc_count_per_arena == old(self)@.max_alloc_count_per_arena,
            match r {
                Ok(a) => {
                    &&& old(self)@.in_flight() < old(self)@.max_arenas
                    &&& final(self)@.in_flight() == old(self)@.in_flight() + 1
                    &&& a.wf()
                    &&& a@.used == 0
                    &&& a@.alloc_count == 0
                    &&& a@.capacity == old(self)@.cap_per_arena
                    &&& a@.alloc_count_cap == old(self)@.max_alloc_count_per_arena
                    &&& if old(self)@.idle.len() > 0 {
                        &&& a@.bytes == old(self)@.idle.last()
                        &&& final(self)@.idle == old(self)@.idle.drop_last()
                        &&& final(self)@.total_allocated == old(self)@.total_allocated
                    } else {
                        &&& a@.bytes == Seq::new(old(self)@.cap_per_arena, |i: int| 0u8)
                        &&& final(self)@.idle == old(self)@.idle
                        &&& final(self)@.total_allocated == old(self)@.total_allocated + 1
                    }
                },
                Err(e) => {
                    &&& old(self)@.in_flight() == old(self)@.max_arenas
                    &&& final(self)@ == old(self)@
                    &&& e matches Error::ResourceExhausted(m) && m@ == pool_exhausted_message(
                        old(self)@.max_arenas,
                    )
                },
            },
    {
        let ghost old_view = self@;
        let buffer = if self.idle.len() > 0 {
            let b = self.idle.pop().unwrap();
            assert(self@.idle =~= old_view.idle.drop_last());
            assert(b@ == old_view.idle[old_view.idle.len() - 1]);
            assert(b@.len() == old_view.cap_per_arena);
            b
        } else if self.total_allocated < self.max_arenas {
            self.total_allocated = self.total_allocated + 1;
            let b = vec![0u8; self.cap_per_arena];
            assert(b@ =~= Seq::new(old_view.cap_per_arena, |i: int| 0u8));
            b
        } else {
            let mut msg = String::from_str("ArenaPool exhausted: all ");
            append_decimal(&mut msg, self.max_arenas as u64);
            msg.append(" arenas checked out");
            return Err(Error::ResourceExhausted(msg));
        };
        Ok(
            Arena {
                buffer,
                cursor: 0,
                alloc_count: 0,
                cap: self.cap_per_arena,
                alloc_count_cap: self.max_alloc_count_per_arena,
            },
        )
    }

    /// Return an arena's buffer to the idle list, freeing its slot for
    /// the next lease. A buffer that does not fit this pool (a capacity
    /// other than `cap_per_arena`, or no slot checked out) is dropped
    /// instead.
    pub fn release(&mut self, arena: Arena)
        requires
            old(self).wf(),
            arena.wf(),
        ensures
            final(self).wf(),
            if arena@.capacity == old(self)@.cap_per_arena && old(self)@.in_flight() > 0 {
                final(self)@ == (ArenaPoolView {
                    idle: old(self)@.idle.push(arena@.bytes),
                    ..old(self)@
                })
            } else {
                final(self)@ == old(self)@
            },
    {
        let ghost old_view = self@;
        if arena.cap == self.cap_per_arena && self.idle.len() < self.total_allocated {
            self.idle.push(arena.buffer);
            assert(self@.idle =~= old_view.idle.push(arena@.bytes));
        }
    }
}

/// Leasing respects the slot count: a lease succeeds exactly when fewer
/// than `max_arenas` arenas are checked out, so at most `max_arenas`
/// are ever out at once.
pub proof fn law_lease_succeeds_iff_slot_free(p: ArenaPoolView)
    requires
        p.idle.len() <= p.total_allocated <= p.max_arenas,
    ensures
        p.in_flight() < p.max_arenas <==> (p.idle.len() > 0 || p.total_allocated < p.max_arenas),
{
}

/// Releasing an arena frees a slot: with one fewer arena out, the next
/// lease succeeds.
pub proof fn law_release_frees_slot(p: ArenaPoolView, bytes: Seq<u8>)
    requires
        p.idle.len() <= p.total_allocated <= p.max_arenas,
        p.in_flight() > 0,
    ensures
        (ArenaPoolView { idle: p.idle.push(bytes), ..p }).in_flight() == p.in_flight() - 1,
        (ArenaPoolView { idle: p.idle.push(bytes), ..p }).in_flight() < p.max_arenas,
{
}

// ───────────────────────── frames ─────────────────────────

/// Per-frame metadata carried alongside an [`Arena`] inside a
/// [`FrameInner`].
#[non_exhaustive]
#[derive(Copy, Clone, Debug)]
pub struct FrameHeader {
    pub width: u32,
    pub height: u32,
    pub pixel_format: PixelFormat,
    /// Presentation timestamp in stream time-base units. `None` when
    /// the codec did not surface one (e.g. a still image).
    pub presentation_timestamp: Option<i64>,
}

impl FrameHeader {
    /// A header with all four fields set.
    pub fn new(
        width: u32,
        height: u32,
        pixel_format: PixelFormat,
        presentation_timestamp: Option<i64>,
    ) -> (h: Self)
        ensures
            h == (FrameHeader { width, height, pixel_format, presentation_timestamp }),
    {
        FrameHeader { width, height, pixel_format, presentation_timestamp }
    }
}

/// Maximum number of planes a [`FrameInner`] can describe.
pub const MAX_PLANES: usize = 4;

/// The message of the error for too many planes.
pub open spec fn too_many_planes_message(count: nat) -> Seq<char> {
    "FrameInner supports at most "@ + decimal_chars(MAX_PLANES as nat) + " planes (got "@
        + decimal_chars(count) + ")"@
}

/// The message of the error for a plane whose end overflows.
pub open spec fn plane_overflow_message(i: nat) -> Seq<char> {
    "plane "@ + decimal_chars(i) + ": offset+len overflow"@
}

/// The message of the error for a plane past the arena's used region.
pub open spec fn plane_outside_message(i: nat, offset: nat, end: nat, used: nat) -> Seq<char> {
    "plane "@ + decimal_chars(i) + ": range "@ + decimal_chars(offset) + ".."@ + decimal_chars(end)
        + " exceeds arena used="@ + decimal_chars(used)
}

/// Whether plane `p` lies within the first `used` bytes.
pub open spec fn plane_fits(p: (usize, usize), used: nat) -> bool {
    p.0 + p.1 <= used
}

/// The message `FrameInner::new` fails with for `planes` over an arena
/// with `used` bytes used, or `None` when they are acceptable: at most
/// [`MAX_PLANES`] planes, each within the used region; the first
/// offending plane is reported.
pub open spec fn plane_check(planes: Seq<(usize, usize)>, used: nat) -> Option<Seq<char>> {
    if planes.len() > MAX_PLANES {
        Some(too_many_planes_message(planes.len()))
    } else {
        first_bad_plane(planes, used, 0)
    }
}

/// The message for the first plane at or after `i` that is not within
/// `used` bytes.
pub open spec fn first_bad_plane(planes: Seq<(usize, usize)>, used: nat, i: nat) -> Option<
    Seq<char>,
>
    decreases planes.len() - i,
{
    if i >= planes.len() {
        None
    } else if planes[i as int].0 + planes[i as int].1 > usize::MAX {
        Some(plane_overflow_message(i))
    } else if planes[i as int].0 + planes[i as int].1 > used {
        Some(
            plane_outside_message(
                i,
                planes[i as int].0 as nat,
                (planes[i as int].0 + planes[i as int].1) as nat,
                used,
            ),
        )
    } else {
        first_bad_plane(planes, used, i + 1)
    }
}

proof fn lemma_no_bad_plane_fits(planes: Seq<(usize, usize)>, used: nat, i: nat)
    requires
        first_bad_plane(planes, used, i) is None,
    ensures
        forall|j: int| i <= j < planes.len() ==> plane_fits(#[trigger] planes[j], used),
    decreases planes.len() - i,
{
    if i < planes.len() {
        lemma_no_bad_plane_fits(planes, used, i + 1);
    }
}

/// The body of a refcounted [`Frame`]: an [`Arena`] (the bytes), up to
/// [`MAX_PLANES`] `(offset, length)` plane ranges within the arena's
/// used region, and a [`FrameHeader`].
pub struct FrameInner {
    arena: Arena,
    plane_offsets: [(usize, usize); 4],
    plane_count: u8,
    header: FrameHeader,
}

/// Refcounted handle to a decoded video frame (single-threaded).
pub type Frame = Rc<FrameInner>;

impl FrameInner {
    /// The plane ranges, in order.
    pub closed spec fn planes(self) -> Seq<(usize, usize)> {
        self.plane_offsets@.take(self.plane_count as int)
    }

    /// The arena the frame owns.
    pub closed spec fn arena(self) -> Arena {
        self.arena
    }

    /// The frame's header.
    pub closed spec fn header_of(self) -> FrameHeader {
        self.header
    }

    /// The arena is well formed and every plane lies within its used
    /// region.
    pub closed spec fn wf(self) -> bool {
        &&& self.arena.wf()
        &&& self.plane_count <= MAX_PLANES
        &&& forall|i: int|
            0 <= i < self.planes().len() ==> plane_fits(
                #[trigger] self.planes()[i],
                self.arena()@.used,
            )
    }

    /// Validate `planes` against `arena` and build the frame body.
    /// Fails with `Error::InvalidData` when more than [`MAX_PLANES`]
    /// planes are given or a plane range falls outside the arena's used
    /// region; the arena is then handed back with the error.
    pub fn build(arena: Arena, planes: &[(usize, usize)], header: FrameHeader) -> (r: Result<
        FrameInner,
        (Error, Arena),
    >)
        requires
            arena.wf(),
        ensures
            match plane_check(planes@, arena@.used) {
                None => r matches Ok(f) && f.wf() && f.planes() == planes@ && f.arena() == arena
                    && f.header_of() == header,
                Some(msg) => r matches Err((e, a)) && a == arena && (e matches Error::InvalidData(
                    m,
                ) && m@ == msg),
            },
    {
        if planes.len() > MAX_PLANES {
            let mut msg = String::from_str("FrameInner supports at most ");
            append_decimal(&mut msg, 4);
            msg.append(" planes (got ");
            append_decimal(&mut msg, planes.len() as u64);
            msg.append(")");
            return Err((Error::InvalidData(msg), arena));
        }
        let used = arena.used();
        let mut i: usize = 0;
        while i < planes.len()
            invariant
                i <= planes@.len() <= MAX_PLANES,
                used == arena@.used,
                first_bad_plane(planes@, used as nat, 0) == first_bad_plane(
                    planes@,
                    used as nat,
                    i as nat,
                ),
            decreases planes@.len() - i,
        {
            let (off, len) = planes[i];
            let end = match off.checked_add(len) {
                Some(e) => e,
                None => {
                    let mut msg = String::from_str("plane ");
                    append_decimal(&mut msg, i as u64);
                    msg.append(": offset+len overflow");
                    return Err((Error::InvalidData(msg), arena));
                },
            };
            if end > used {
                let mut msg = String::from_str("plane ");
                append_decimal(&mut msg, i as u64);
                msg.append(": range ");
                append_decimal(&mut msg, off as u64);
                msg.append("..");
                append_decimal(&mut msg, end as u64);
                msg.append(" exceeds arena used=");
                append_decimal(&mut msg, used as u64);
                return Err((Error::InvalidData(msg), arena));
            }
            i += 1;
        }
        proof {
            lemma_no_bad_plane_fits(planes@, used as nat, 0);
        }
        let mut plane_offsets: [(usize, usize); 4] = [(0, 0), (0, 0), (0, 0), (0, 0)];
        let mut j: usize = 0;
        while j < planes.len()
            invariant
                j <= planes@.len() <= MAX_PLANES,
                forall|k: int| 0 <= k < j ==> plane_offsets@[k] == planes@[k],
                plane_offsets@.len() == 4,
            decreases planes@.len() - j,
        {
            plane_offsets[j] = planes[j];
            j += 1;
        }
        let f = FrameInner { arena, plane_offsets, plane_count: planes.len() as u8, header };
        assert(f.planes() =~= planes@);
        Ok(f)
    }

    /// Construct a refcounted [`Frame`] from an arena, `(offset, length)`
    /// plane descriptors and a header; see [`build`](Self::build).
    pub fn new(arena: Arena, planes: &[(usize, usize)], header: FrameHeader) -> (r: Result<
        Frame,
        (Error, Arena),
    >)
        requires
            arena.wf(),
        ensures
            match plane_check(planes@, arena@.used) {
                None => r matches Ok(f) && f.wf() && f.planes() == planes@ && f.arena() == arena
                    && f.header_of() == header,
                Some(msg) => r matches Err((e, a)) && a == arena && (e matches Error::InvalidData(
                    m,
                ) && m@ == msg),
            },
    {
        match Self::build(arena, planes, header) {
            Ok(f) => Ok(Rc::new(f)),
            Err(e) => Err(e),
        }
    }

    /// Number of planes this frame holds.
    pub fn plane_count(&self) -> (r: usize)
        requires
            self.wf(),
        ensures
            r == self.planes().len(),
    {
        self.plane_count as usize
    }

    /// The bytes of plane `i`, or `None` if `i` is out of range.
    pub fn plane(&self, i: usize) -> (r: Option<&[u8]>)
        requires
            self.wf(),
        ensures
            match r {
                Some(s) => i < self.planes().len() && s@.len() == self.planes()[i as int].1 && s@ == self.arena()@.bytes.subrange(
                    self.planes()[i as int].0 as int,
                    self.planes()[i as int].0 + self.planes()[i as int].1,
                ),
                None => i >= self.planes().len(),
            },
    {
        if i >= self.plane_count as usize {
            return None;
        }
        let (off, len) = self.plane_offsets[i];
        assert(self.planes()[i as int] == (off, len));
        let buf = self.arena.buffer.as_slice();
        let (_, tail) = buf.split_at(off);
        let (plane, _) = tail.split_at(len);
        assert(plane@ =~= self.arena()@.bytes.subrange(off as int, off + len));
        Some(plane)
    }

    /// Frame header (width / height / pixel format / pts).
    pub fn header(&self) -> (r: &FrameHeader)
        ensures
            *r == self.header_of(),
    {
        &self.header
    }

    /// Take the arena back out of the frame, to return it to its pool.
    pub fn into_arena(self) -> (a: Arena)
        ensures
            a == self.arena(),
    {
        self.arena
    }
}

} // verus!
