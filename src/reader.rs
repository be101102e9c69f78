//! The read endpoint: it takes chunks from the channel one at a time and hands
//! their bytes out in reads of whatever size the caller asks for.

use vstd::prelude::*;
use vstd::slice::{slice_subrange, slice_to_vec};

use crate::channel::recv_chunk;
use crate::error::PipeError;

verus! {

/// The read end of a pipe (see `pipe()`).
pub struct PipeReader {
    receiver: crossbeam_channel::Receiver<Vec<u8>>,
    /// The chunk most recently taken from the channel.
    buffer: Vec<u8>,
    /// How much of `buffer` has been handed out already.
    position: usize,
    /// Set once the channel has reported that every writer is gone.
    finished: bool,
    /// Every byte taken from the channel so far, chunk after chunk.
    received: Ghost<Seq<u8>>,
    /// Every byte handed out to callers so far.
    delivered: Ghost<Seq<u8>>,
    /// Every answer the channel gave so far, in order: a chunk, or `None`
    /// once every writer was gone.
    answers: Ghost<Seq<Option<Seq<u8>>>>,
}

/// What the read endpoint does next after one answer of the channel, with
/// `skipped` empty chunks already passed over in the same call.
#[derive(Debug, Clone, Copy, PartialEq, Eq, Structural)]
pub enum ReadStep {
    /// A chunk with bytes came: hand them out.
    Ready,
    /// Every writer is gone: the stream has ended.
    End,
    /// An empty chunk came: ask the channel again.
    Again,
    /// The last of `u64::MAX` empty chunks in a row came: stop asking for now.
    GiveUp,
}

/// The channel's answer as plain bytes.
pub open spec fn answer_of(got: Option<Vec<u8>>) -> Option<Seq<u8>> {
    match got {
        None => None,
        Some(d) => Some(d@),
    }
}

/// The step that follows an answer, after `skipped` empty chunks.
pub open spec fn read_step(answer: Option<Seq<u8>>, skipped: nat) -> ReadStep {
    match answer {
        None => ReadStep::End,
        Some(d) => if d.len() > 0 {
            ReadStep::Ready
        } else if skipped + 1 >= u64::MAX {
            ReadStep::GiveUp
        } else {
            ReadStep::Again
        },
    }
}

/// The answers of one wait for a chunk that were passed over: each one, at
/// its place in the run, leads to asking again.
pub open spec fn passed_over(answers: Seq<Option<Seq<u8>>>) -> bool {
    forall|i: int| 0 <= i < answers.len() ==> #[trigger] read_step(answers[i], i as nat) == ReadStep::Again
}

/// Decides what follows an answer of the channel, after `skipped` empty chunks
/// were passed over in the same call.
pub fn next_step(got: &Option<Vec<u8>>, skipped: u64) -> (r: ReadStep)
    ensures
        r == read_step(answer_of(*got), skipped as nat),
{
    match got {
        None => ReadStep::End,
        Some(d) => if d.len() > 0 {
            ReadStep::Ready
        } else if skipped >= u64::MAX - 1 {
            ReadStep::GiveUp
        } else {
            ReadStep::Again
        },
    }
}

/// How many bytes a read into a buffer of `wanted` bytes takes from a chunk
/// with `available` bytes left: as many as fit.
pub open spec fn short_read_len(wanted: nat, available: nat) -> int {
    if wanted < available {
        wanted as int
    } else {
        available as int
    }
}

impl PipeReader {
    /// The bytes of the current chunk that no caller has been given yet.
    pub closed spec fn pending(&self) -> Seq<u8> {
        self.buffer@.subrange(self.position as int, self.buffer@.len() as int)
    }

    /// Whether the end of the stream has been reached: all writers are gone and
    /// nothing is left to hand out.
    pub closed spec fn is_finished(&self) -> bool {
        self.finished
    }

    /// The chunks taken from the channel so far, joined in the order they came.
    pub closed spec fn received(&self) -> Seq<u8> {
        self.received@
    }

    /// The bytes handed out to callers so far, in the order they were handed out.
    pub closed spec fn delivered(&self) -> Seq<u8> {
        self.delivered@
    }

    /// The receiving side of the channel that this endpoint reads from.
    pub closed spec fn channel(&self) -> crossbeam_channel::Receiver<Vec<u8>> {
        self.receiver
    }

    /// Every answer the channel gave this endpoint so far, in order.
    pub closed spec fn answers(&self) -> Seq<Option<Seq<u8>>> {
        self.answers@
    }

    /// How many times the channel has been asked for a chunk so far.
    pub open spec fn receive_count(&self) -> nat {
        self.answers().len()
    }

    /// The endpoint's invariant: what was received is exactly what was
    /// delivered followed by what is pending.
    pub closed spec fn wf(&self) -> bool {
        &&& self.position <= self.buffer@.len()
        &&& self.received@ == self.delivered@ + self.pending()
        &&& self.finished ==> self.position == self.buffer@.len()
    }

    /// What an endpoint always satisfies, spelled out for callers.
    pub proof fn lemma_wf(&self)
        requires
            self.wf(),
        ensures
            self.received() == self.delivered() + self.pending(),
            self.is_finished() ==> self.pending().len() == 0,
    {
    }

    /// Whatever sizes the reads asked for, an endpoint that has reached the
    /// end of the stream has handed out exactly the bytes it received, in the
    /// order they came.
    pub proof fn lemma_reads_reassemble(&self)
        requires
            self.wf(),
            self.is_finished(),
        ensures
            self.delivered() == self.received(),
    {
        assert(self.pending() =~= Seq::<u8>::empty());
        assert(self.delivered@ + self.pending() =~= self.delivered@);
    }

    /// A fresh read endpoint on the receiving side of a channel.
    pub(crate) fn new(receiver: crossbeam_channel::Receiver<Vec<u8>>) -> (r: PipeReader)
        ensures
            r.wf(),
            r.pending().len() == 0,
            r.received().len() == 0,
            r.delivered().len() == 0,
            !r.is_finished(),
            r.channel() == receiver,
    {
        let r = PipeReader {
            receiver,
            buffer: Vec::new(),
            position: 0,
            finished: false,
            received: Ghost(Seq::empty()),
            delivered: Ghost(Seq::empty()),
            answers: Ghost(Seq::empty()),
        };
        assert(r.pending() =~= Seq::<u8>::empty());
        r
    }

    /// Extracts the receiving side of the channel, together with the bytes of
    /// the current chunk that were not handed out yet.
    pub fn into_inner(self) -> (r: (crossbeam_channel::Receiver<Vec<u8>>, Vec<u8>))
        requires
            self.wf(),
        ensures
            r.0 == self.channel(),
            r.1@ == self.pending(),
    {
        let rest = slice_to_vec(slice_subrange(self.buffer.as_slice(), self.position, self.buffer.len()));
        (self.receiver, rest)
    }

    /// What one answer of the channel does to the endpoint: `None` (every
    /// writer is gone) ends the stream; a chunk becomes the current one.
    fn take_chunk(&mut self, got: Option<Vec<u8>>)
        requires
            old(self).wf(),
            old(self).pending().len() == 0,
            !old(self).is_finished(),
        ensures
            final(self).wf(),
            final(self).channel() == old(self).channel(),
            final(self).delivered() == old(self).delivered(),
            final(self).answers() == old(self).answers().push(answer_of(got)),
            match got {
                None => final(self).is_finished() && final(self).received() == old(self).received(),
                Some(d) => !final(self).is_finished() && final(self).pending() == d@
                    && final(self).received() == old(self).received() + d@,
            },
    {
        let ghost heard = self.answers@;
        self.answers = Ghost(heard.push(answer_of(got)));
        match got {
            None => {
                self.finished = true;
            },
            Some(data) => {
                proof {
                    assert(self.pending() =~= Seq::<u8>::empty());
                }
                let ghost seen = self.received@;
                self.received = Ghost(seen + data@);
                self.buffer = data;
                self.position = 0;
                proof {
                    assert(self.pending() =~= data@);
                }
            },
        }
    }

    /// The bytes not yet handed out of the current chunk, taking the next
    /// chunk from the channel first when the current one is used up.
    ///
    /// Empty chunks are passed over. The view is empty only at the end of the
    /// stream. Should `u64::MAX` empty chunks in a row arrive within one call,
    /// it gives up with `Interrupted`, so that every call ends; it may simply
    /// be made again.
    pub fn fill_buf(&mut self) -> (r: Result<&[u8], PipeError>)
        requires
            old(self).wf(),
        ensures
            final(self).wf(),
            final(self).channel() == old(self).channel(),
            final(self).delivered() == old(self).delivered(),
            old(self).pending().len() > 0 ==> *final(self) == *old(self),
            old(self).is_finished() ==> *final(self) == *old(self),
            old(self).pending().len() == 0 && !old(self).is_finished() ==> ({
                let before = old(self).answers().len();
                let run = final(self).answers().skip(before as int);
                let last = run.len() - 1;
                &&& final(self).answers().len() > before
                &&& final(self).answers().take(before as int) == old(self).answers()
                &&& run.len() <= u64::MAX
                &&& passed_over(run.take(last))
                &&& match r {
                    Ok(view) => (read_step(run[last], last as nat) == ReadStep::Ready && run[last]
                        == Some(view@)) || (read_step(run[last], last as nat) == ReadStep::End
                        && view@.len() == 0),
                    Err(e) => read_step(run[last], last as nat) == ReadStep::GiveUp,
                }
            }),
            old(self).pending().len() == 0 ==> final(self).received() == old(self).received()
                + final(self).pending(),
            match r {
                Ok(view) => view@ == final(self).pending() && (view@.len() == 0
                    <==> final(self).is_finished()),
                Err(e) => e == PipeError::Interrupted && !final(self).is_finished()
                    && final(self).pending().len() == 0 && final(self).receive_count()
                    == old(self).receive_count() + u64::MAX,
            },
    {
        if self.finished || self.position < self.buffer.len() {
            return Ok(slice_subrange(self.buffer.as_slice(), self.position, self.buffer.len()));
        }
        let ghost before = self.answers@.len();
        let mut skipped: u64 = 0;
        loop
            invariant_except_break
                self.pending().len() == 0,
                !self.is_finished(),
                self.received() == old(self).received(),
                self.answers().len() == before + skipped,
            invariant
                self.wf(),
                skipped < u64::MAX,
                self.channel() == old(self).channel(),
                self.delivered() == old(self).delivered(),
                old(self).pending().len() == 0,
                !old(self).is_finished(),
                self.answers().take(before as int) == old(self).answers(),
                passed_over(self.answers().skip(before as int).take(skipped as int)),
                self.received() == old(self).received() + self.pending(),
            ensures
                self.answers().len() == before + skipped + 1,
                self.answers().take(before as int) == old(self).answers(),
                passed_over(self.answers().skip(before as int).take(skipped as int)),
                ({
                    let got = self.answers()[before + skipped];
                    ||| read_step(got, skipped as nat) == ReadStep::Ready && got == Some(self.pending())
                        && self.pending().len() > 0 && !self.is_finished()
                    ||| read_step(got, skipped as nat) == ReadStep::End && self.is_finished()
                }),
            decreases u64::MAX - skipped,
        {
            let got = recv_chunk(&self.receiver);
            let step = next_step(&got, skipped);
            let ghost run = self.answers@.skip(before as int);
            self.take_chunk(got);
            proof {
                assert(self.answers@.skip(before as int).take(skipped as int) =~= run.take(skipped as int));
                assert(self.answers@.take(before as int) =~= old(self).answers@);
                assert(self.answers@[before + skipped] == answer_of(got));
            }
            match step {
                ReadStep::Again => {
                    proof {
                        let next = self.answers@.skip(before as int).take(skipped as int + 1);
                        assert(next =~= run.take(skipped as int).push(answer_of(got)));
                        assert forall|i: int| 0 <= i < next.len() implies #[trigger] read_step(next[i], i as nat)
                            == ReadStep::Again by {
                            if i < skipped {
                                assert(next[i] == run.take(skipped as int)[i]);
                            }
                        }
                    }
                    skipped = skipped + 1;
                },
                ReadStep::GiveUp => {
                    proof {
                        assert(self.answers@.skip(before as int).take(skipped as int) =~= run.take(skipped as int));
                    }
                    return Err(PipeError::Interrupted);
                },
                _ => {
                    break;
                },
            }
        }
        proof {
            let run = self.answers@.skip(before as int);
            assert(run.take(run.len() - 1) =~= self.answers@.skip(before as int).take(skipped as int));
        }
        Ok(slice_subrange(self.buffer.as_slice(), self.position, self.buffer.len()))
    }

    /// How many bytes of the current chunk are still to be handed out.
    pub fn available(&self) -> (r: usize)
        requires
            self.wf(),
        ensures
            r == self.pending().len(),
    {
        self.buffer.len() - self.position
    }

    /// Marks the first `amt` pending bytes as handed out.
    pub fn consume(&mut self, amt: usize)
        requires
            old(self).wf(),
            amt <= old(self).pending().len(),
        ensures
            final(self).wf(),
            final(self).pending() == old(self).pending().skip(amt as int),
            final(self).delivered() == old(self).delivered() + old(self).pending().take(amt as int),
            final(self).received() == old(self).received(),
            final(self).is_finished() == old(self).is_finished(),
            final(self).channel() == old(self).channel(),
            final(self).answers() == old(self).answers(),
    {
        let ghost before = self.pending();
        let ghost given = self.delivered@ + before.take(amt as int);
        assert(before =~= before.take(amt as int) + before.skip(amt as int));
        self.delivered = Ghost(given);
        let end = self.buffer.len();
        assert(amt <= end - self.position);
        self.position = self.position + amt;
        proof {
            assert(self.pending() =~= before.skip(amt as int));
            assert(self.received@ =~= self.delivered@ + self.pending());
        }
    }

    /// Copies bytes of the stream into `buf` and says how many.
    ///
    /// An empty `buf` gets `0` at once. Otherwise the call waits for a chunk
    /// when the current one is used up, and copies as much of the rest of that
    /// one chunk as fits: a short read when `buf` is larger. It returns `0`
    /// only at the end of the stream, and from then on always.
    pub fn read(&mut self, buf: &mut [u8]) -> (r: Result<usize, PipeError>)
        requires
            old(self).wf(),
        ensures
            final(self).wf(),
            final(self).channel() == old(self).channel(),
            final(buf)@.len() == old(buf)@.len(),
            old(buf)@.len() > 0 && old(self).pending().len() == 0 && !old(self).is_finished()
                ==> final(self).receive_count() > old(self).receive_count(),
            old(buf)@.len() > 0 && old(self).pending().len() == 0 && !old(self).is_finished() ==> ({
                let before = old(self).answers().len();
                let run = final(self).answers().skip(before as int);
                let last = run.len() - 1;
                &&& final(self).answers().len() > before
                &&& final(self).answers().take(before as int) == old(self).answers()
                &&& passed_over(run.take(last))
                &&& match r {
                    Ok(n) => (read_step(run[last], last as nat) == ReadStep::Ready && run[last] is Some && ({
                        let c = run[last]->0;
                        &&& n == short_read_len(old(buf)@.len(), c.len())
                        &&& final(buf)@.take(n as int) == c.take(n as int)
                        &&& final(self).pending() == c.skip(n as int)
                    })) || (read_step(run[last], last as nat) == ReadStep::End && n == 0),
                    Err(e) => read_step(run[last], last as nat) == ReadStep::GiveUp,
                }
            }),
            match r {
                Ok(n) => {
                    &&& n <= old(buf)@.len()
                    &&& final(buf)@.skip(n as int) == old(buf)@.skip(n as int)
                    &&& final(self).delivered() == old(self).delivered() + final(buf)@.take(n as int)
                    &&& (n == 0 <==> (old(buf)@.len() == 0 || final(self).is_finished()))
                    &&& (n == old(buf)@.len() || final(self).pending().len() == 0)
                    &&& (old(self).pending().len() == 0 ==> final(self).received()
                        == old(self).received() + final(buf)@.take(n as int) + final(self).pending())
                },
                Err(e) => {
                    &&& e == PipeError::Interrupted
                    &&& final(buf)@ == old(buf)@
                    &&& final(self).delivered() == old(self).delivered()
                    &&& final(self).pending().len() == 0
                    &&& !final(self).is_finished()
                    &&& final(self).receive_count() == old(self).receive_count() + u64::MAX
                },
            },
            old(buf)@.len() == 0 || old(self).is_finished() ==> r == Ok::<usize, PipeError>(0) && *final(self) == *old(self),
            old(self).pending().len() > 0 && old(buf)@.len() > 0 ==> {
                let n = short_read_len(old(buf)@.len(), old(self).pending().len());
                &&& r == Ok::<usize, PipeError>(n as usize)
                &&& final(buf)@.take(n) == old(self).pending().take(n)
                &&& final(self).pending() == old(self).pending().skip(n)
                &&& final(self).received() == old(self).received()
            },
    {
        if buf.len() == 0 {
            return Ok(0);
        }
        let len: usize;
        let ghost filled: Seq<u8>;
        {
            let internal = match self.fill_buf() {
                Ok(view) => view,
                Err(e) => {
                    return Err(e);
                },
            };
            len = if buf.len() < internal.len() { buf.len() } else { internal.len() };
            let mut i: usize = 0;
            while i < len
                invariant
                    i <= len,
                    len <= buf@.len(),
                    len <= internal@.len(),
                    buf@.len() == old(buf)@.len(),
                    forall|j: int| 0 <= j < i ==> buf@[j] == internal@[j],
                    forall|j: int| i <= j < buf@.len() ==> buf@[j] == old(buf)@[j],
                decreases len - i,
            {
                buf[i] = internal[i];
                i = i + 1;
            }
            assert(buf@.take(len as int) =~= self.pending().take(len as int));
            assert(buf@.skip(len as int) =~= old(buf)@.skip(len as int));
            proof {
                filled = self.pending();
            }
        }
        let ghost answered = self.answers@;
        if len > 0 {
            self.consume(len);
        }
        assert(self.answers@ == answered);
        assert(len > 0 ==> self.pending() == filled.skip(len as int));
        proof {
            if len == 0 {
                assert(buf@.take(0) =~= Seq::<u8>::empty());
                assert(self.delivered@ + Seq::<u8>::empty() =~= self.delivered@);
            }
        }
        Ok(len)
    }
}

} // verus!
