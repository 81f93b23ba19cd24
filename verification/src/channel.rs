//! Trusted boundary to `crossbeam_channel`: the channel types and the four
//! calls the control plane makes on them. Everything a channel is used for
//! beyond these calls is verified code in the other modules.

use vstd::prelude::*;

verus! {

#[verifier::external_type_specification]
#[verifier::external_body]
#[verifier::reject_recursive_types(T)]
pub struct ExSender<T>(crossbeam_channel::Sender<T>);

#[verifier::external_type_specification]
#[verifier::external_body]
#[verifier::reject_recursive_types(T)]
pub struct ExReceiver<T>(crossbeam_channel::Receiver<T>);

/// Relies on `crossbeam_channel::unbounded`: a fresh channel of unbounded
/// capacity, handed back as its two ends. Which channel comes back depends
/// on the allocator, so nothing is promised of the value.
pub assume_specification<T>[ crossbeam_channel::unbounded::<T> ]() -> (r: (
    crossbeam_channel::Sender<T>,
    crossbeam_channel::Receiver<T>,
));

/// Relies on `crossbeam_channel::Sender::clone`: another sending end of the
/// same channel. Channel identity is opaque here, so nothing is promised.
#[verifier::external_body]
pub(crate) fn clone_sender<T>(s: &crossbeam_channel::Sender<T>) -> (r: crossbeam_channel::Sender<
    T,
>) {
    s.clone()
}

/// Relies on `crossbeam_channel::Sender::send` on an unbounded channel: it
/// never blocks, and it fails exactly when every receiver of the channel is
/// gone. Whether the receiver is gone depends on the run, so the outcome is
/// reported but not pinned.
#[verifier::external_body]
pub(crate) fn channel_send<T>(s: &crossbeam_channel::Sender<T>, msg: T) -> (accepted: bool) {
    s.send(msg).is_ok()
}

/// Relies on `crossbeam_channel::Receiver::try_recv`: non-blocking; a
/// message if one is ready, `None` on an empty or disconnected channel.
/// What arrives depends on the run, so nothing is promised of the value.
#[verifier::external_body]
pub(crate) fn channel_try_recv<T>(r: &crossbeam_channel::Receiver<T>) -> (msg: Option<T>) {
    r.try_recv().ok()
}

} // verus!
