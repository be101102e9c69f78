use vstd::prelude::*;

verus! {

/// What can go wrong on an endpoint of a pipe.
#[derive(Debug, Clone, Copy, PartialEq, Eq, Structural)]
pub enum PipeError {
    /// The other endpoint is gone: nothing written now can ever be read.
    BrokenPipe,
    /// No bytes could be handed over in this call, but the stream goes on:
    /// the call may simply be made again.
    Interrupted,
}

impl PipeError {
    /// A short description of the condition, in words.
    pub fn message(&self) -> (r: &'static str)
        ensures
            *self == PipeError::BrokenPipe ==> r@ == "pipe reader has been dropped"@,
            *self == PipeError::Interrupted ==> r@ == "no data yet, try again"@,
    {
        match self {
            PipeError::BrokenPipe => "pipe reader has been dropped",
            PipeError::Interrupted => "no data yet, try again",
        }
    }
}

/// The error that a write endpoint reports once its reader has been dropped.
pub fn epipe() -> (r: PipeError)
    ensures
        r == PipeError::BrokenPipe,
{
    PipeError::BrokenPipe
}

} // verus!
