//! The `Send + Sync` flavour of the parent arena module: the same pool
//! and arenas, with frames behind `Arc` so a decoded frame can be moved
//! or shared across threads.

use crate::arena::{plane_check, FrameHeader};
use crate::error::Error;
use std::sync::Arc;
use vstd::prelude::*;

pub use crate::arena::{Arena, ArenaPool};

verus! {

/// The body of a refcounted [`Frame`]; see [`crate::arena::FrameInner`].
pub struct FrameInner(crate::arena::FrameInner);

/// Refcounted handle to a decoded video frame, shareable across
/// threads.
pub type Frame = Arc<FrameInner>;

impl FrameInner {
    /// The frame body.
    pub closed spec fn body(self) -> crate::arena::FrameInner {
        self.0
    }

    /// Construct a refcounted [`Frame`] from an arena, `(offset, length)`
    /// plane descriptors and a header: at most
    /// [`MAX_PLANES`](crate::arena::MAX_PLANES) planes, each within the
    /// arena's used region, or `Error::InvalidData` with the arena handed
    /// back.
    pub fn new(arena: Arena, planes: &[(usize, usize)], header: FrameHeader) -> (r: Result<
        Frame,
        (Error, Arena),
    >)
        requires
            arena.wf(),
        ensures
            match plane_check(planes@, arena@.used) {
                None => r matches Ok(f) && f.body().wf() && f.body().planes() == planes@
                    && f.body().arena() == arena && f.body().header_of() == header,
                Some(msg) => r matches Err((e, a)) && a == arena && (e matches Error::InvalidData(
                    m,
                ) && m@ == msg),
            },
    {
        match crate::arena::FrameInner::build(arena, planes, header) {
            Ok(f) => Ok(Arc::new(FrameInner(f))),
            Err(e) => Err(e),
        }
    }

    /// Number of planes this frame holds.
    pub fn plane_count(&self) -> (r: usize)
        requires
            self.body().wf(),
        ensures
            r == self.body().planes().len(),
    {
        self.0.plane_count()
    }

    /// The bytes of plane `i`, or `None` if `i` is out of range.
    pub fn plane(&self, i: usize) -> (r: Option<&[u8]>)
        requires
            self.body().wf(),
        ensures
            match r {
                Some(s) => i < self.body().planes().len() && s@.len() == self.body().planes()[i as int].1 && s@ == self.body().arena()@.bytes.subrange(
                    self.body().planes()[i as int].0 as int,
                    self.body().planes()[i as int].0 + self.body().planes()[i as int].1,
                ),
                None => i >= self.body().planes().len(),
            },
    {
        self.0.plane(i)
    }

    /// Frame header (width / height / pixel format / pts).
    pub fn header(&self) -> (r: &FrameHeader)
        ensures
            *r == self.body().header_of(),
    {
        self.0.header()
    }

    /// Take the arena back out of the frame, to return it to its pool.
    pub fn into_arena(self) -> (a: Arena)
        ensures
            a == self.body().arena(),
    {
        self.0.into_arena()
    }
}

} // verus!
