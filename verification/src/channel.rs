use vstd::prelude::*;

verus! {

#[verifier::external_type_specification]
#[verifier::external_body]
#[verifier::reject_recursive_types(T)]
pub struct ExSender<T>(crossbeam_channel::Sender<T>);

#[verifier::external_type_specification]
#[verifier::external_body]
#[verifier::reject_recursive_types(T)]
pub struct ExReceiver<T>(crossbeam_channel::Receiver<T>);

/// What one bounded-wait receive attempt reported.
pub enum RecvOutcome<T> {
    /// A message arrived within the wait.
    Got(T),
    /// Nothing arrived within the wait; the senders are still connected.
    TimedOut,
    /// Every sender is gone and the channel is drained.
    Closed,
}

/// Relies on crossbeam_channel::bounded: a channel of fixed capacity
/// connecting senders to receivers; a full channel blocks its senders.
/// The capacity bound keeps clear of the sizes its constructor refuses.
#[verifier::external_body]
pub fn channel_bounded<T>(cap: usize) -> (r: (
    crossbeam_channel::Sender<T>,
    crossbeam_channel::Receiver<T>,
))
    requires
        1 <= cap <= 0x1000_0000,
{
    crossbeam_channel::bounded(cap)
}

/// Relies on crossbeam_channel::Sender::send: blocks until the channel
/// has room, and fails only when every receiver is gone, handing the
/// unsent message back.
#[verifier::external_body]
pub fn channel_send<T>(s: &crossbeam_channel::Sender<T>, msg: T) -> (r: Result<(), T>)
    ensures
        r matches Err(m) ==> m == msg,
{
    match s.send(msg) {
        Ok(()) => Ok(()),
        Err(crossbeam_channel::SendError(m)) => Err(m),
    }
}

/// Relies on crossbeam_channel::Receiver::recv_timeout: waits at most
/// about `millis` for a message; reports disconnection only when every
/// sender is gone and the channel is drained.
#[verifier::external_body]
pub fn channel_recv_timeout<T>(r: &crossbeam_channel::Receiver<T>, millis: u64) -> (out:
    RecvOutcome<T>)
{
    match r.recv_timeout(core::time::Duration::from_millis(millis)) {
        Ok(v) => RecvOutcome::Got(v),
        Err(crossbeam_channel::RecvTimeoutError::Timeout) => RecvOutcome::TimedOut,
        Err(crossbeam_channel::RecvTimeoutError::Disconnected) => RecvOutcome::Closed,
    }
}

/// Relies on crossbeam_channel::Sender::clone: another sender for the
/// same channel.
#[verifier::external_body]
pub fn channel_sender_clone<T>(s: &crossbeam_channel::Sender<T>) -> (r: crossbeam_channel::Sender<
    T,
>) {
    s.clone()
}

/// Relies on crossbeam_channel::after and Receiver::recv: blocks the
/// calling thread for about `millis`, the cooperative wait used while
/// paused or idle.
#[verifier::external_body]
pub fn pause_briefly(millis: u64) {
    let timer = crossbeam_channel::after(core::time::Duration::from_millis(millis));
    let _ = timer.recv();
}

} // verus!
