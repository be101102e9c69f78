//! The rendezvous channel that carries chunks from the write endpoints to the
//! read endpoint. Sending, receiving and the channel itself come from
//! `crossbeam_channel`; what they do depends on other threads, so the items
//! below promise only what holds whatever those threads do.

use vstd::prelude::*;

verus! {

#[verifier::external_type_specification]
#[verifier::external_body]
#[verifier::reject_recursive_types(T)]
pub struct ExSender<T>(crossbeam_channel::Sender<T>);

#[verifier::external_type_specification]
#[verifier::external_body]
#[verifier::reject_recursive_types(T)]
pub struct ExReceiver<T>(crossbeam_channel::Receiver<T>);

/// What a send that must not block came to.
pub enum TrySend {
    /// A receiver was waiting and took the chunk.
    Sent,
    /// Nobody was ready to take the chunk; here it is back.
    Full(Vec<u8>),
    /// The receiving side is gone; here is the chunk back.
    Disconnected(Vec<u8>),
}

/// Relies on `crossbeam_channel::bounded(0)`: a new zero-capacity channel,
/// whose sender and receiver are connected to each other.
#[verifier::external_body]
pub(crate) fn rendezvous() -> (r: (crossbeam_channel::Sender<Vec<u8>>, crossbeam_channel::Receiver<Vec<u8>>)) {
    crossbeam_channel::bounded(0)
}

/// Relies on `crossbeam_channel::Sender::send`, given the bytes of `chunk`
/// (taken out with `std::mem::take`): it blocks until they are taken, which
/// leaves `chunk` empty; or it fails and hands the same bytes back in its
/// `SendError`, and they go back into `chunk`. It never panics and touches no
/// invariant, so a destructor may call it.
#[verifier::external_body]
pub(crate) fn send_chunk(sender: &crossbeam_channel::Sender<Vec<u8>>, chunk: &mut Vec<u8>) -> (r: bool)
    ensures
        r ==> final(chunk)@.len() == 0,
        !r ==> final(chunk)@ == old(chunk)@,
    opens_invariants none
    no_unwind
{
    match sender.send(std::mem::take(chunk)) {
        Ok(()) => true,
        Err(back) => {
            *chunk = back.0;
            false
        },
    }
}

/// Relies on `Vec::is_empty`: whether `v` holds no byte. It neither panics
/// nor touches any invariant, so a destructor may call it.
#[verifier::external_body]
pub(crate) fn bytes_empty(v: &Vec<u8>) -> (r: bool)
    ensures
        r == (v@.len() == 0),
    opens_invariants none
    no_unwind
{
    v.is_empty()
}

/// Relies on `crossbeam_channel::Sender::try_send`: it never blocks; when the
/// chunk is not taken, the error hands the same chunk back.
#[verifier::external_body]
pub(crate) fn try_send_chunk(sender: &crossbeam_channel::Sender<Vec<u8>>, chunk: Vec<u8>) -> (r: TrySend)
    ensures
        r matches TrySend::Full(back) ==> back@ == chunk@,
        r matches TrySend::Disconnected(back) ==> back@ == chunk@,
{
    match sender.try_send(chunk) {
        Ok(()) => TrySend::Sent,
        Err(crossbeam_channel::TrySendError::Full(back)) => TrySend::Full(back),
        Err(crossbeam_channel::TrySendError::Disconnected(back)) => TrySend::Disconnected(back),
    }
}

/// Relies on `crossbeam_channel::Receiver::recv`: the next chunk, or `None`
/// once every sender is gone and nothing is left to take.
#[verifier::external_body]
pub(crate) fn recv_chunk(receiver: &crossbeam_channel::Receiver<Vec<u8>>) -> (r: Option<Vec<u8>>) {
    receiver.recv().ok()
}

/// Relies on `Clone for crossbeam_channel::Sender`: one more handle to the same
/// channel.
#[verifier::external_body]
pub(crate) fn clone_sender(sender: &crossbeam_channel::Sender<Vec<u8>>) -> (r: crossbeam_channel::Sender<Vec<u8>>) {
    sender.clone()
}

} // verus!
