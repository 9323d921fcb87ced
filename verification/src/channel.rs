use vstd::prelude::*;
use crossbeam_channel::{Receiver, Sender};
use crate::record::FastLogRecord;

verus! {

#[verifier::external_type_specification]
#[verifier::external_body]
#[verifier::reject_recursive_types(T)]
pub struct ExSender<T>(Sender<T>);

#[verifier::external_type_specification]
#[verifier::external_body]
#[verifier::reject_recursive_types(T)]
pub struct ExReceiver<T>(Receiver<T>);

#[verifier::external_type_specification]
#[verifier::external_body]
#[verifier::reject_recursive_types(T)]
pub struct ExSendError<T>(crossbeam_channel::SendError<T>);

/// The largest capacity `crossbeam_channel::bounded` accepts: beyond it the
/// channel's internal lap counter would overflow and the call panics.
pub open spec fn max_bounded_capacity() -> int {
    usize::MAX as int / 4
}

/// The capacity of the channel behind a record sender, as
/// `crossbeam_channel::Sender::capacity` reports it: `None` for a channel
/// without a bound.
pub uninterp spec fn sender_capacity(s: Sender<FastLogRecord>) -> Option<usize>;

/// Creates a record channel without a bound (`crossbeam_channel::unbounded`).
/// Such a channel reports no capacity (its sender's `capacity` is `None`).
#[verifier::external_body]
fn unbounded_channel() -> (r: (Sender<FastLogRecord>, Receiver<FastLogRecord>))
    ensures
        sender_capacity(r.0) is None,
{
    crossbeam_channel::unbounded()
}

/// Creates a record channel holding at most `cap` records
/// (`crossbeam_channel::bounded`); `cap` 0 makes a rendezvous channel. Its
/// sender reports the capacity `cap`. The source panics when `cap + 1`
/// rounded up to a power of two, doubled, overflows `usize`, which
/// `requires` leaves out.
#[verifier::external_body]
fn bounded_channel(cap: usize) -> (r: (Sender<FastLogRecord>, Receiver<FastLogRecord>))
    requires
        cap <= max_bounded_capacity(),
    ensures
        sender_capacity(r.0) == Some(cap),
{
    crossbeam_channel::bounded(cap)
}

/// A record channel of capacity `len`, or without a bound for `None`.
pub fn chan(len: Option<usize>) -> (r: (Sender<FastLogRecord>, Receiver<FastLogRecord>))
    requires
        len matches Some(n) ==> n <= max_bounded_capacity(),
    ensures
        sender_capacity(r.0) == len,
{
    match len {
        None => unbounded_channel(),
        Some(n) => bounded_channel(n),
    }
}

} // verus!
