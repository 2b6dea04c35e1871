//! Runtime hints passed from the executor to codecs and filters.
//!
//! An [`ExecutionContext`] carries advisory information — today only a
//! thread budget — that codecs can use to tune their internal
//! parallelism.

use vstd::prelude::*;

verus! {

/// Advisory runtime information handed to a codec after construction.
#[derive(Clone, Debug)]
pub struct ExecutionContext {
    /// Advisory cap on how many threads a codec may use for its own
    /// internal parallelism. Always `>= 1`.
    pub threads: usize,
}

impl ExecutionContext {
    /// Ask the codec to run strictly single-threaded.
    pub fn serial() -> (ctx: Self)
        ensures
            ctx.threads == 1,
    {
        Self { threads: 1 }
    }

    /// Budget the codec to at most `threads` internal workers. Values
    /// below 1 are clamped up to 1.
    pub fn with_threads(threads: usize) -> (ctx: Self)
        ensures
            ctx.threads == if threads < 1 { 1 } else { threads },
    {
        let t: usize = if threads < 1 { 1 } else { threads };
        Self { threads: t }
    }
}

impl Default for ExecutionContext {
    fn default() -> (ctx: Self)
        ensures
            ctx.threads == 1,
    {
        Self::serial()
    }
}

} // verus!
