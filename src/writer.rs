//! The plain write endpoint: every write becomes exactly one chunk.

use vstd::prelude::*;
use vstd::slice::slice_to_vec;

use crate::channel::{clone_sender, send_chunk};
use crate::error::{epipe, PipeError};

verus! {

/// The write end of a pipe (see `pipe()`). Clones share the sending side of
/// the same channel.
pub struct PipeWriter {
    sender: crossbeam_channel::Sender<Vec<u8>>,
}

impl PipeWriter {
    /// The sending side of the channel that this endpoint writes to.
    pub closed spec fn channel(&self) -> crossbeam_channel::Sender<Vec<u8>> {
        self.sender
    }

    /// A write endpoint on the sending side of a channel.
    pub(crate) fn new(sender: crossbeam_channel::Sender<Vec<u8>>) -> (r: PipeWriter)
        ensures
            r.channel() == sender,
    {
        PipeWriter { sender }
    }

    /// Extracts the sending side of the channel.
    pub fn into_inner(self) -> (r: crossbeam_channel::Sender<Vec<u8>>)
        ensures
            r == self.channel(),
    {
        self.sender
    }

    /// The sending side of the channel.
    pub fn sender(&self) -> (r: &crossbeam_channel::Sender<Vec<u8>>)
        ensures
            *r == self.channel(),
    {
        &self.sender
    }

    /// Sends `bytes` to the reader as one chunk, waiting until it is taken.
    /// Fails with `BrokenPipe` when the reader is gone.
    pub fn send<B: Into<Vec<u8>>>(&self, bytes: B) -> (r: Result<(), PipeError>)
        ensures
            r matches Err(e) ==> e == PipeError::BrokenPipe,
    {
        let mut chunk: Vec<u8> = bytes.into();
        if send_chunk(&self.sender, &mut chunk) {
            Ok(())
        } else {
            Err(epipe())
        }
    }

    /// Sends the whole of `buf` as one chunk, waiting until it is taken, and
    /// returns its length; or sends nothing and fails with `BrokenPipe` when
    /// the reader is gone.
    pub fn write(&self, buf: &[u8]) -> (r: Result<usize, PipeError>)
        ensures
            match r {
                Ok(n) => n == buf@.len(),
                Err(e) => e == PipeError::BrokenPipe,
            },
    {
        let mut chunk = slice_to_vec(buf);
        if send_chunk(&self.sender, &mut chunk) {
            Ok(buf.len())
        } else {
            Err(epipe())
        }
    }

    /// Nothing is ever held back, so there is nothing to flush.
    pub fn flush(&self) -> (r: Result<(), PipeError>)
        ensures
            r == Ok::<(), PipeError>(()),
    {
        Ok(())
    }
}

impl Clone for PipeWriter {
    /// Another write endpoint on the same channel.
    fn clone(&self) -> (r: PipeWriter) {
        PipeWriter { sender: clone_sender(&self.sender) }
    }
}

} // verus!
