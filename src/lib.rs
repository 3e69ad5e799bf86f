//! Resumable, non-blocking byte transfer between a buffer and a stream that
//! can only be polled.
//!
//! The decisions of each transfer loop live in two state machines,
//! [`inbound::InboundTransfer`] (stream to buffer) and
//! [`outbound::OutboundTransfer`] (buffer to stream). A driver asks the
//! machine what to do next, performs that one stream or buffer operation, and
//! hands the outcome back, until the machine finishes with a [`PollResult`].
use core::task::Poll;
use vstd::prelude::*;

pub mod inbound;
pub mod outbound;

verus! {

#[verifier::external_type_specification]
#[verifier::reject_recursive_types(T)]
pub struct ExPoll<T>(core::task::Poll<T>);

#[verifier::external_type_specification]
#[verifier::external_body]
pub struct ExIoError(std::io::Error);

/// What one call of a transfer reports.
#[derive(Debug)]
pub struct PollResult {
    /// how many bytes were moved during the call, whatever `ret` says
    pub delta: usize,
    /// how the call ended: `Pending` when the stream was not ready, an error
    /// when the stream failed, and otherwise `Ready(Ok(reached_limit))`
    pub ret: Poll<std::io::Result<bool>>,
}

/// The number of bytes that one stream attempt reports as moved: the count of
/// a successful attempt, and zero for an error or a stream that is not ready.
pub open spec fn advance(o: Poll<std::io::Result<usize>>) -> nat {
    match o {
        Poll::Ready(Ok(n)) => n as nat,
        _ => 0,
    }
}

/// The sum of the byte counts reported by a sequence of stream attempts.
pub open spec fn sum_progress(outs: Seq<Poll<std::io::Result<usize>>>) -> nat
    decreases outs.len(),
{
    if outs.len() == 0 {
        0
    } else {
        advance(outs[0]) + sum_progress(outs.drop_first())
    }
}

/// The status that a raw stream outcome becomes once its count is dropped.
pub open spec fn reduce(
    ret: Poll<std::io::Result<usize>>,
    reached_limit: bool,
) -> Poll<std::io::Result<bool>> {
    match ret {
        Poll::Ready(Ok(_)) => Poll::Ready(Ok(reached_limit)),
        Poll::Ready(Err(e)) => Poll::Ready(Err(e)),
        Poll::Pending => Poll::Pending,
    }
}

/// Turns the raw outcome of one stream attempt into the status reported to
/// the caller: the byte count is dropped and `reached_limit` takes its place;
/// an error is passed on as it is.
pub fn ret_reduce(ret: Poll<std::io::Result<usize>>, reached_limit: bool) -> (r: Poll<
    std::io::Result<bool>,
>)
    ensures
        r == reduce(ret, reached_limit),
{
    match ret {
        Poll::Ready(Ok(_)) => Poll::Ready(Ok(reached_limit)),
        Poll::Ready(Err(e)) => Poll::Ready(Err(e)),
        Poll::Pending => Poll::Pending,
    }
}

/// Summing the counts of the first `k + 1` attempts adds the count of the
/// first attempt to the sum over the next `k`.
pub proof fn lemma_sum_progress_take(outs: Seq<Poll<std::io::Result<usize>>>, k: int)
    requires
        1 <= k <= outs.len(),
    ensures
        sum_progress(outs.take(k)) == advance(outs[0]) + sum_progress(outs.drop_first().take(k - 1)),
{
    assert(outs.take(k).drop_first() =~= outs.drop_first().take(k - 1));
}

} // verus!
