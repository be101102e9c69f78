//! The buffered write endpoint: small writes are gathered into one buffer and
//! go out as fewer, larger chunks.

use vstd::prelude::*;

use crate::channel::{bytes_empty, clone_sender, send_chunk, try_send_chunk, TrySend};
use crate::error::{epipe, PipeError};

verus! {

/// The capacity of a buffered write endpoint when none is asked for.
pub const DEFAULT_BUF_SIZE: usize = 8 * 1024;

/// How many bytes of an input of `input` bytes a write takes, with `occupied`
/// bytes already buffered and room for `capacity`: an input larger than the
/// capacity is taken whole; otherwise as much as still fits.
pub open spec fn accepted_len(input: nat, occupied: nat, capacity: nat) -> nat {
    if input > capacity {
        input
    } else if occupied >= capacity {
        0
    } else if input < capacity - occupied {
        input
    } else {
        (capacity - occupied) as nat
    }
}

/// The write end of a pipe (see `pipe_buffered()`) that gathers small writes
/// before sending them to the read end.
pub struct PipeBufWriter {
    /// Always present; taken out only by `into_inner`, which consumes the endpoint.
    sender: Option<crossbeam_channel::Sender<Vec<u8>>>,
    /// Bytes accepted by writes and not handed to the channel yet.
    buffer: Vec<u8>,
    /// How many bytes the buffer holds before it must be sent.
    size: usize,
    /// Every byte this endpoint has handed to the channel, chunk after chunk.
    sent: Ghost<Seq<u8>>,
}

impl PipeBufWriter {
    /// The bytes held back, not yet handed to the channel.
    pub closed spec fn buffered(&self) -> Seq<u8> {
        self.buffer@
    }

    /// How many bytes the buffer holds before it must be sent.
    pub closed spec fn spec_capacity(&self) -> nat {
        self.size as nat
    }

    /// The bytes this endpoint has handed to the channel, in order.
    pub closed spec fn sent(&self) -> Seq<u8> {
        self.sent@
    }

    /// Everything this endpoint has taken from its callers and kept: what went
    /// to the channel, followed by what is still held back.
    pub open spec fn written(&self) -> Seq<u8> {
        self.sent() + self.buffered()
    }

    /// The sending side of the channel that this endpoint writes to; `None`
    /// only inside `into_inner`, once it has been taken out.
    pub closed spec fn channel(&self) -> Option<crossbeam_channel::Sender<Vec<u8>>> {
        self.sender
    }

    /// The endpoint's invariant: it still owns its sending side.
    pub closed spec fn wf(&self) -> bool {
        self.sender is Some
    }

    /// A buffered write endpoint on the sending side of a channel.
    pub(crate) fn new(sender: crossbeam_channel::Sender<Vec<u8>>, capacity: usize) -> (r: PipeBufWriter)
        ensures
            r.wf(),
            r.channel() == Some(sender),
            r.spec_capacity() == capacity,
            r.buffered().len() == 0,
            r.sent().len() == 0,
    {
        PipeBufWriter {
            sender: Some(sender),
            buffer: Vec::with_capacity(capacity),
            size: capacity,
            sent: Ghost(Seq::empty()),
        }
    }

    /// Extracts the sending side of the channel, together with the bytes that
    /// were held back and never sent.
    pub fn into_inner(self) -> (r: (crossbeam_channel::Sender<Vec<u8>>, Vec<u8>))
        requires
            self.wf(),
        ensures
            self.channel() == Some(r.0),
            r.1@ == self.buffered(),
    {
        let mut this = self;
        let mut sender = None;
        std::mem::swap(&mut sender, &mut this.sender);
        let mut buffer = Vec::new();
        std::mem::swap(&mut buffer, &mut this.buffer);
        (sender.unwrap(), buffer)
    }

    /// The sending side of the channel.
    pub fn sender(&self) -> (r: &crossbeam_channel::Sender<Vec<u8>>)
        requires
            self.wf(),
        ensures
            self.channel() == Some(*r),
    {
        self.sender.as_ref().unwrap()
    }

    /// The bytes held back, not yet handed to the channel.
    pub fn buffer(&self) -> (r: &[u8])
        ensures
            r@ == self.buffered(),
    {
        self.buffer.as_slice()
    }

    /// How many bytes the buffer holds before it must be sent.
    pub fn capacity(&self) -> (r: usize)
        ensures
            r == self.spec_capacity(),
    {
        self.size
    }

    /// Takes bytes from `buf` and says how many.
    ///
    /// An input larger than the capacity is taken whole and sent at once, after
    /// what was held back, as one chunk. Otherwise as much as still fits is
    /// added to the buffer. A buffer that is then full is sent, waiting until
    /// it is taken; one that is not is offered to the channel without waiting,
    /// and kept when nobody takes it at once. When the reader is gone the call
    /// fails with `BrokenPipe`: on the waiting path the bytes stay buffered, on
    /// the other the buffer goes back to what it held before the call.
    pub fn write(&mut self, buf: &[u8]) -> (r: Result<usize, PipeError>)
        requires
            old(self).wf(),
        ensures
            final(self).wf(),
            final(self).spec_capacity() == old(self).spec_capacity(),
            final(self).channel() == old(self).channel(),
            old(self).spec_capacity() == 0 && old(self).buffered().len() == 0 && buf@.len() == 0
                ==> r == Ok::<usize, PipeError>(0) && final(self).buffered() == old(self).buffered()
                && final(self).sent() == old(self).sent(),
            r matches Ok(k) ==> final(self).written() == old(self).written() + buf@.take(k as int),
            buf@.len() > old(self).spec_capacity() ==> match r {
                Ok(k) => k == buf@.len() && final(self).buffered().len() == 0
                    && final(self).sent() == old(self).written() + buf@,
                Err(e) => e == PipeError::BrokenPipe && final(self).buffered() == old(self).buffered() + buf@
                    && final(self).sent() == old(self).sent(),
            },
            ({
                let n = accepted_len(buf@.len(), old(self).buffered().len(), old(self).spec_capacity());
                let grown = old(self).buffered() + buf@.take(n as int);
                if grown.len() >= old(self).spec_capacity() {
                    match r {
                        Ok(k) => k == n && final(self).buffered().len() == 0
                            && final(self).sent() == old(self).sent() + grown,
                        Err(e) => e == PipeError::BrokenPipe && final(self).buffered() == grown
                            && final(self).sent() == old(self).sent(),
                    }
                } else {
                    match r {
                        Ok(k) => k == n && ((final(self).buffered().len() == 0
                            && final(self).sent() == old(self).sent() + grown) || (final(self).buffered()
                            == grown && final(self).sent() == old(self).sent())),
                        Err(e) => e == PipeError::BrokenPipe && final(self).buffered() == old(self).buffered()
                            && final(self).sent() == old(self).sent(),
                    }
                }
            }),
    {
        let buffer_len = self.buffer.len();
        let bytes_written: usize = if buf.len() > self.size {
            buf.len()
        } else if buffer_len >= self.size {
            0
        } else if buf.len() < self.size - buffer_len {
            buf.len()
        } else {
            self.size - buffer_len
        };
        assert(buf.len() > self.size ==> buf@.take(bytes_written as int) =~= buf@);
        let mut i: usize = 0;
        while i < bytes_written
            invariant
                i <= bytes_written <= buf@.len(),
                self.buffer@ == old(self).buffer@ + buf@.take(i as int),
                self.sender == old(self).sender,
                self.size == old(self).size,
                self.sent == old(self).sent,
            decreases bytes_written - i,
        {
            self.buffer.push(buf[i]);
            i = i + 1;
            assert(self.buffer@ =~= old(self).buffer@ + buf@.take(i as int));
        }
        if self.buffer.len() >= self.size {
            match self.flush() {
                Ok(()) => {},
                Err(e) => {
                    return Err(e);
                },
            }
        } else {
            let mut data = Vec::new();
            std::mem::swap(&mut data, &mut self.buffer);
            let ghost chunk = data@;
            let answer = try_send_chunk(self.sender(), data);
            match self.settle_try_send(answer, buffer_len, Ghost(chunk)) {
                Ok(()) => {},
                Err(e) => {
                    assert(self.buffer@ =~= old(self).buffer@);
                    return Err(e);
                },
            }
        }
        Ok(bytes_written)
    }

    /// What the answer of a send that did not wait does to the endpoint, whose
    /// buffer was handed over as `chunk` and held `before` bytes ahead of the
    /// write: a taken chunk is sent; one nobody was ready for is kept whole;
    /// one refused because the reader is gone is cut back to those `before`
    /// bytes, and the write fails.
    fn settle_try_send(&mut self, answer: TrySend, before: usize, chunk: Ghost<Seq<u8>>) -> (r: Result<(), PipeError>)
        requires
            old(self).wf(),
            old(self).buffered().len() == 0,
        ensures
            final(self).wf(),
            final(self).spec_capacity() == old(self).spec_capacity(),
            final(self).channel() == old(self).channel(),
            match answer {
                TrySend::Sent => r is Ok && final(self).buffered().len() == 0
                    && final(self).sent() == old(self).sent() + chunk@,
                TrySend::Full(back) => r is Ok && final(self).buffered() == back@
                    && final(self).sent() == old(self).sent(),
                TrySend::Disconnected(back) => r == Err::<(), PipeError>(PipeError::BrokenPipe)
                    && final(self).buffered() == (if before <= back@.len() { back@.take(before as int) } else { back@ })
                    && final(self).sent() == old(self).sent(),
            },
    {
        match answer {
            TrySend::Sent => {
                let ghost sent_before = self.sent@;
                self.sent = Ghost(sent_before + chunk@);
                self.buffer.reserve(self.size);
                Ok(())
            },
            TrySend::Full(back) => {
                self.buffer = back;
                Ok(())
            },
            TrySend::Disconnected(back) => {
                self.buffer = back;
                self.buffer.truncate(before);
                Err(epipe())
            },
        }
    }

    /// Sends all held-back bytes as one chunk, waiting until it is taken.
    ///
    /// With nothing held back it succeeds at once. When the reader is gone it
    /// fails with `BrokenPipe` and keeps the bytes, so that none is lost.
    pub fn flush(&mut self) -> (r: Result<(), PipeError>)
        requires
            old(self).wf(),
        ensures
            final(self).wf(),
            final(self).spec_capacity() == old(self).spec_capacity(),
            final(self).channel() == old(self).channel(),
            old(self).buffered().len() == 0 ==> r == Ok::<(), PipeError>(())
                && final(self).buffered() == old(self).buffered()
                && final(self).sent() == old(self).sent(),
            match r {
                Ok(()) => final(self).buffered().len() == 0 && final(self).sent() == old(self).written(),
                Err(e) => e == PipeError::BrokenPipe && final(self).buffered() == old(self).buffered()
                    && final(self).sent() == old(self).sent(),
            },
    {
        if self.buffer.len() == 0 {
            assert(old(self).written() =~= old(self).sent());
            return Ok(());
        }
        let ghost chunk = self.buffer@;
        if send_chunk(self.sender.as_ref().unwrap(), &mut self.buffer) {
            let ghost before = self.sent@;
            self.sent = Ghost(before + chunk);
            self.buffer.reserve(self.size);
            Ok(())
        } else {
            Err(epipe())
        }
    }
}

impl Clone for PipeBufWriter {
    /// Another buffered write endpoint on the same channel, with the same
    /// capacity and an empty buffer of its own: bytes held back by `self` stay
    /// with `self`.
    fn clone(&self) -> (r: PipeBufWriter)
        ensures
            self.wf() ==> r.wf(),
            r.spec_capacity() == self.spec_capacity(),
            r.buffered().len() == 0,
            r.sent().len() == 0,
    {
        let sender = match &self.sender {
            Some(s) => Some(clone_sender(s)),
            None => None,
        };
        PipeBufWriter {
            sender,
            buffer: Vec::with_capacity(self.size),
            size: self.size,
            sent: Ghost(Seq::empty()),
        }
    }
}

/// Before the endpoint goes away, what is still held back is sent, waiting
/// until it is taken. A failure here is ignored: call `flush` first to see it,
/// or take the bytes back with `into_inner`, after which nothing is left.
impl Drop for PipeBufWriter {
    fn drop(&mut self)
        ensures
            old(self).buffered().len() == 0 ==> *final(self) == *old(self),
            old(self).wf() && old(self).buffered().len() > 0 ==> (final(self).buffered().len() == 0
                && final(self).sent() == old(self).written()) || (final(self).buffered()
                == old(self).buffered() && final(self).sent() == old(self).sent()),
        opens_invariants none
        no_unwind
    {
        if !bytes_empty(&self.buffer) {
            let ghost chunk = self.buffer@;
            match &self.sender {
                Some(sender) => {
                    if send_chunk(sender, &mut self.buffer) {
                        let ghost before = self.sent@;
                        self.sent = Ghost(before + chunk);
                    }
                },
                None => {},
            }
        }
    }
}

} // verus!
