//! A synchronous, memory-only pipe: a one-way byte stream whose write and read
//! endpoints hand chunks of bytes to each other through a rendezvous channel.
//!
//! Writes on a `PipeWriter` go out as one chunk each. A `PipeBufWriter`
//! gathers small writes into a buffer and sends fewer, larger chunks. A
//! `PipeReader` hands the bytes of the chunks out again, in order, in reads of
//! whatever size its caller asks for.

use vstd::prelude::*;

pub mod buf_writer;
pub mod channel;
pub mod error;
pub mod reader;
pub mod writer;

pub use buf_writer::{accepted_len, PipeBufWriter, DEFAULT_BUF_SIZE};
pub use error::{epipe, PipeError};
pub use reader::{answer_of, next_step, passed_over, read_step, short_read_len, PipeReader, ReadStep};
pub use writer::PipeWriter;

use channel::rendezvous;

verus! {

/// Creates a synchronous memory pipe.
pub fn pipe() -> (r: (PipeReader, PipeWriter))
    ensures
        r.0.wf(),
        r.0.received().len() == 0,
        r.0.delivered().len() == 0,
        !r.0.is_finished(),
{
    let (sender, receiver) = rendezvous();
    (PipeReader::new(receiver), PipeWriter::new(sender))
}

/// Creates a synchronous memory pipe whose write end gathers small writes,
/// with room for `DEFAULT_BUF_SIZE` bytes.
pub fn pipe_buffered() -> (r: (PipeReader, PipeBufWriter))
    ensures
        r.0.wf(),
        r.0.received().len() == 0,
        r.0.delivered().len() == 0,
        !r.0.is_finished(),
        r.1.wf(),
        r.1.spec_capacity() == DEFAULT_BUF_SIZE,
        r.1.buffered().len() == 0,
        r.1.sent().len() == 0,
{
    pipe_buffered_with_capacity(DEFAULT_BUF_SIZE)
}

/// Creates a synchronous memory pipe whose write end gathers small writes,
/// with room for `capacity` bytes.
pub fn pipe_buffered_with_capacity(capacity: usize) -> (r: (PipeReader, PipeBufWriter))
    ensures
        r.0.wf(),
        r.0.received().len() == 0,
        r.0.delivered().len() == 0,
        !r.0.is_finished(),
        r.1.wf(),
        r.1.spec_capacity() == capacity,
        r.1.buffered().len() == 0,
        r.1.sent().len() == 0,
{
    let (sender, receiver) = rendezvous();
    (PipeReader::new(receiver), PipeBufWriter::new(sender, capacity))
}

/// Bytes reach the reader whole and in order, whatever the sizes of the reads:
/// once a buffered writer holds nothing back, the channel has delivered its
/// chunks in the order they were sent, and the reader has read to the end of
/// the stream, the reader has handed out exactly the bytes the writer took.
pub proof fn lemma_written_bytes_arrive(w: &PipeBufWriter, r: &PipeReader)
    requires
        w.wf(),
        r.wf(),
        w.buffered().len() == 0,
        r.received() == w.sent(),
        r.is_finished(),
    ensures
        r.delivered() == w.written(),
{
    r.lemma_wf();
    assert(r.delivered() =~= r.delivered() + r.pending());
    assert(w.written() =~= w.sent());
}

} // verus!
