//! Buffer to stream: writes a buffer's unconsumed bytes to a stream for as
//! long as the stream takes them.
use core::task::Poll;
use vstd::prelude::*;

use crate::{advance, lemma_sum_progress_take, reduce, ret_reduce, sum_progress, PollResult};

verus! {

/// The bookkeeping of one outbound transfer call.
pub struct OutboundView {
    /// unconsumed bytes of the source when the call began
    pub start: nat,
    /// unconsumed bytes of the source now
    pub remaining: nat,
}

impl OutboundView {
    /// The state at the start of a call.
    pub open spec fn fresh(unconsumed: nat) -> OutboundView {
        OutboundView { start: unconsumed, remaining: unconsumed }
    }

    pub open spec fn wf(self) -> bool {
        self.remaining <= self.start <= usize::MAX
    }

    /// Bytes the stream has taken so far.
    pub open spec fn moved(self) -> nat {
        (self.start - self.remaining) as nat
    }

    /// The state after the stream took `n` bytes.
    pub open spec fn after(self, n: nat) -> OutboundView {
        OutboundView { remaining: (self.remaining - n) as nat, ..self }
    }

    /// The result once the source is consumed: the limit was reached.
    pub open spec fn completion(self) -> PollResult {
        PollResult { delta: self.moved() as usize, ret: Poll::Ready(Ok(true)) }
    }

    /// The result when a write attempt made no progress while bytes remain.
    pub open spec fn stop(self, o: Poll<std::io::Result<usize>>) -> PollResult {
        PollResult { delta: self.moved() as usize, ret: reduce(o, false) }
    }

    /// The result of the rest of a call from this state when the stream's
    /// attempts report `outs` in turn; `None` when `outs` runs out before the
    /// call ends, or an attempt reports more bytes than remain.
    pub open spec fn call(self, outs: Seq<Poll<std::io::Result<usize>>>) -> Option<PollResult>
        decreases outs.len(),
    {
        if self.remaining == 0 {
            Some(self.completion())
        } else if outs.len() == 0 {
            None
        } else if advance(outs[0]) == 0 {
            Some(self.stop(outs[0]))
        } else if advance(outs[0]) > self.remaining {
            None
        } else {
            self.after(advance(outs[0])).call(outs.drop_first())
        }
    }

    /// How many stream attempts the rest of the call makes.
    pub open spec fn polls(self, outs: Seq<Poll<std::io::Result<usize>>>) -> nat
        decreases outs.len(),
    {
        if self.remaining == 0 || outs.len() == 0 {
            0
        } else if advance(outs[0]) == 0 || advance(outs[0]) > self.remaining {
            1
        } else {
            1 + self.after(advance(outs[0])).polls(outs.drop_first())
        }
    }
}

/// What the driver of an outbound transfer does next.
pub enum OutboundAction {
    /// poll the stream once with the source's unconsumed bytes
    Write,
    /// advance the source past this many bytes, then ask for the next action
    Advance(usize),
    /// the call is over
    Finish(PollResult),
}

/// The decisions of one outbound transfer call.
pub struct OutboundTransfer {
    start: usize,
    remaining: usize,
}

impl View for OutboundTransfer {
    type V = OutboundView;

    closed spec fn view(&self) -> OutboundView {
        OutboundView { start: self.start as nat, remaining: self.remaining as nat }
    }
}

impl OutboundTransfer {
    /// Begins a call on a source with `unconsumed` bytes left to write.
    pub fn new(unconsumed: usize) -> (r: Self)
        ensures
            r@ == OutboundView::fresh(unconsumed as nat),
            r@.wf(),
    {
        OutboundTransfer { start: unconsumed, remaining: unconsumed }
    }

    /// Bytes the stream has taken so far in this call.
    pub fn delta(&self) -> (r: usize)
        requires
            self@.wf(),
        ensures
            r == self@.moved(),
    {
        self.start - self.remaining
    }

    /// Asks for a write while bytes remain, and otherwise finishes the call
    /// with the limit reached, without touching the stream.
    pub fn next_action(&self) -> (r: OutboundAction)
        requires
            self@.wf(),
        ensures
            self@.remaining == 0 ==> r == OutboundAction::Finish(self@.completion()),
            self@.remaining > 0 ==> r == OutboundAction::Write,
    {
        if self.remaining == 0 {
            OutboundAction::Finish(
                PollResult { delta: self.start - self.remaining, ret: Poll::Ready(Ok(true)) },
            )
        } else {
            OutboundAction::Write
        }
    }

    /// Takes the outcome of the write just requested: bytes the stream took
    /// are consumed and the loop goes on; any other outcome (none taken, not
    /// ready, an error) ends the call.
    pub fn on_write(&mut self, outcome: Poll<std::io::Result<usize>>) -> (r: OutboundAction)
        requires
            old(self)@.wf(),
            old(self)@.remaining > 0,
            advance(outcome) <= old(self)@.remaining,
        ensures
            final(self)@.wf(),
            advance(outcome) > 0 ==> final(self)@ == old(self)@.after(advance(outcome)) && r
                == OutboundAction::Advance(advance(outcome) as usize),
            advance(outcome) == 0 ==> final(self)@ == old(self)@ && r == OutboundAction::Finish(
                old(self)@.stop(outcome),
            ),
    {
        let n: usize = match &outcome {
            Poll::Ready(Ok(n)) => *n,
            _ => 0,
        };
        if n != 0 {
            self.remaining = self.remaining - n;
            OutboundAction::Advance(n)
        } else {
            let drained = self.remaining == 0;
            OutboundAction::Finish(
                PollResult {
                    delta: self.start - self.remaining,
                    ret: ret_reduce(outcome, drained),
                },
            )
        }
    }
}

/// The delta that a call reports is the sum of the byte counts of the attempts
/// it made.
pub proof fn lemma_outbound_delta_is_progress(s: OutboundView, outs: Seq<Poll<std::io::Result<usize>>>)
    requires
        s.wf(),
        s.call(outs) is Some,
    ensures
        s.polls(outs) <= outs.len(),
        s.call(outs).unwrap().delta == s.moved() + sum_progress(outs.take(s.polls(outs) as int)),
    decreases outs.len(),
{
    if s.remaining == 0 {
        assert(outs.take(0) =~= Seq::<Poll<std::io::Result<usize>>>::empty());
    } else if advance(outs[0]) == 0 {
        lemma_sum_progress_take(outs, 1);
        assert(outs.drop_first().take(0) =~= Seq::<Poll<std::io::Result<usize>>>::empty());
    } else {
        let n = advance(outs[0]);
        lemma_outbound_delta_is_progress(s.after(n), outs.drop_first());
        lemma_sum_progress_take(outs, s.polls(outs) as int);
    }
}

/// A call reports the limit reached exactly when the source's unconsumed
/// bytes ran out during it.
pub proof fn lemma_outbound_limit_flag(s: OutboundView, outs: Seq<Poll<std::io::Result<usize>>>)
    requires
        s.wf(),
        s.call(outs) is Some,
    ensures
        s.call(outs).unwrap().delta <= s.start,
        (s.call(outs).unwrap().ret == Poll::<std::io::Result<bool>>::Ready(Ok(true)))
            <==> s.call(outs).unwrap().delta == s.start,
    decreases outs.len(),
{
    if s.remaining > 0 && advance(outs[0]) > 0 {
        lemma_outbound_limit_flag(s.after(advance(outs[0])), outs.drop_first());
    }
}

/// Two states with the same unconsumed bytes run a call alike; their deltas
/// differ by what each had moved before.
pub proof fn lemma_outbound_shift(s: OutboundView, t: OutboundView, outs: Seq<Poll<std::io::Result<usize>>>)
    requires
        s.wf(),
        t.wf(),
        s.remaining == t.remaining,
    ensures
        s.call(outs) is Some <==> t.call(outs) is Some,
        s.call(outs) is Some ==> s.call(outs).unwrap().ret == t.call(outs).unwrap().ret
            && s.call(outs).unwrap().delta + t.moved() == t.call(outs).unwrap().delta + s.moved(),
    decreases outs.len(),
{
    if s.remaining > 0 && outs.len() > 0 && 0 < advance(outs[0]) <= s.remaining {
        let n = advance(outs[0]);
        lemma_outbound_shift(s.after(n), t.after(n), outs.drop_first());
    }
}

/// Bytes taken before the stream is not ready, and whatever comes after,
/// leave a call at the same place as the first part would followed by the second.
pub proof fn lemma_outbound_resume(
    s: OutboundView,
    progress: Seq<Poll<std::io::Result<usize>>>,
    outs: Seq<Poll<std::io::Result<usize>>>,
)
    requires
        s.wf(),
        forall|i: int| 0 <= i < progress.len() ==> advance(#[trigger] progress[i]) > 0,
        s.call(progress.push(Poll::Pending)) is Some,
        s.call(progress.push(Poll::Pending)).unwrap().ret is Pending,
    ensures
        ({
            let mid = OutboundView {
                remaining: (s.start - s.call(progress.push(Poll::Pending)).unwrap().delta) as nat,
                ..s
            };
            mid.wf() && s.call(progress + outs) == mid.call(outs)
        }),
    decreases progress.len(),
{
    if progress.len() == 0 {
        assert(progress + outs =~= outs);
    } else {
        let n = advance(progress[0]);
        assert(progress.push(Poll::Pending).drop_first() =~= progress.drop_first().push(Poll::Pending));
        assert((progress + outs).drop_first() =~= progress.drop_first() + outs);
        assert((progress + outs)[0] == progress[0]);
        lemma_outbound_resume(s.after(n), progress.drop_first(), outs);
    }
}

/// Calling again after a call was suspended, on the buffer as that call left
/// it, ends as one uninterrupted call would: the two deltas add up and the
/// second call's status is the status of the whole.
pub proof fn lemma_outbound_retry(
    unconsumed: usize,
    progress: Seq<Poll<std::io::Result<usize>>>,
    outs: Seq<Poll<std::io::Result<usize>>>,
)
    requires
        forall|i: int| 0 <= i < progress.len() ==> advance(#[trigger] progress[i]) > 0,
        OutboundView::fresh(unconsumed as nat).call(progress.push(Poll::Pending)) is Some,
        OutboundView::fresh(unconsumed as nat).call(progress.push(Poll::Pending)).unwrap().ret is Pending,
    ensures
        ({
            let whole = OutboundView::fresh(unconsumed as nat);
            let d1 = whole.call(progress.push(Poll::Pending)).unwrap().delta;
            let second = OutboundView::fresh((unconsumed - d1) as nat).call(outs);
            &&& d1 <= unconsumed
            &&& whole.call(progress + outs) is Some <==> second is Some
            &&& second is Some ==> whole.call(progress + outs) == Some(
                PollResult { delta: (d1 + second.unwrap().delta) as usize, ret: second.unwrap().ret },
            )
        }),
{
    let whole = OutboundView::fresh(unconsumed as nat);
    let d1 = whole.call(progress.push(Poll::Pending)).unwrap().delta;
    lemma_outbound_limit_flag(whole, progress.push(Poll::Pending));
    lemma_outbound_resume(whole, progress, outs);
    let mid = OutboundView { remaining: (whole.start - d1) as nat, ..whole };
    let fresh = OutboundView::fresh((unconsumed - d1) as nat);
    lemma_outbound_shift(mid, fresh, outs);
}

} // verus!
