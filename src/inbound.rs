//! Stream to buffer: drains what a stream has ready into a destination buffer.
use core::task::Poll;
use vstd::prelude::*;

use crate::{advance, lemma_sum_progress_take, reduce, ret_reduce, sum_progress, PollResult};

verus! {

/// Size of the staging area that each read attempt fills at most.
pub const STAGING_LEN: usize = 8192;

/// The bookkeeping of one inbound transfer call.
pub struct InboundView {
    /// remaining capacity of the destination when the call began
    pub start: nat,
    /// remaining capacity of the destination now
    pub remaining: nat,
    /// the most bytes this call may move
    pub delta_limit: nat,
}

impl InboundView {
    /// The state at the start of a call.
    pub open spec fn fresh(capacity: nat, delta_limit: nat) -> InboundView {
        InboundView { start: capacity, remaining: capacity, delta_limit }
    }

    pub open spec fn wf(self) -> bool {
        &&& self.remaining <= self.start <= usize::MAX
        &&& self.delta_limit <= usize::MAX
        &&& self.moved() <= self.delta_limit
    }

    /// Bytes appended to the destination so far.
    pub open spec fn moved(self) -> nat {
        (self.start - self.remaining) as nat
    }

    /// Bytes still allowed under the limit.
    pub open spec fn budget(self) -> nat {
        (self.delta_limit - self.moved()) as nat
    }

    /// Size of the next read request: the least of the staging area, the
    /// destination's remaining capacity and the budget.
    pub open spec fn request(self) -> nat {
        let cap = if self.remaining < STAGING_LEN { self.remaining } else { STAGING_LEN as nat };
        if self.budget() < cap {
            self.budget()
        } else {
            cap
        }
    }

    /// The state after `n` bytes were appended.
    pub open spec fn after(self, n: nat) -> InboundView {
        InboundView { remaining: (self.remaining - n) as nat, ..self }
    }

    /// The result when no read can be requested: the limit was reached when
    /// the budget is what ran out.
    pub open spec fn completion(self) -> PollResult {
        PollResult { delta: self.moved() as usize, ret: Poll::Ready(Ok(self.budget() == 0)) }
    }

    /// The result when a read attempt made no progress.
    pub open spec fn stop(self, o: Poll<std::io::Result<usize>>) -> PollResult {
        PollResult { delta: self.moved() as usize, ret: reduce(o, false) }
    }

    /// The result of the rest of a call from this state when the stream's
    /// attempts report `outs` in turn; `None` when `outs` runs out before the
    /// call ends, or an attempt reports more bytes than were requested.
    pub open spec fn call(self, outs: Seq<Poll<std::io::Result<usize>>>) -> Option<PollResult>
        decreases outs.len(),
    {
        if self.request() == 0 {
            Some(self.completion())
        } else if outs.len() == 0 {
            None
        } else if advance(outs[0]) == 0 {
            Some(self.stop(outs[0]))
        } else if advance(outs[0]) > self.request() {
            None
        } else {
            self.after(advance(outs[0])).call(outs.drop_first())
        }
    }

    /// How many stream attempts the rest of the call makes.
    pub open spec fn polls(self, outs: Seq<Poll<std::io::Result<usize>>>) -> nat
        decreases outs.len(),
    {
        if self.request() == 0 || outs.len() == 0 {
            0
        } else if advance(outs[0]) == 0 || advance(outs[0]) > self.request() {
            1
        } else {
            1 + self.after(advance(outs[0])).polls(outs.drop_first())
        }
    }

    /// The sizes of the read requests that the rest of the call makes, in order.
    pub open spec fn requests(self, outs: Seq<Poll<std::io::Result<usize>>>) -> Seq<nat>
        decreases outs.len(),
    {
        if self.request() == 0 || outs.len() == 0 {
            Seq::empty()
        } else if advance(outs[0]) == 0 || advance(outs[0]) > self.request() {
            seq![self.request()]
        } else {
            seq![self.request()] + self.after(advance(outs[0])).requests(outs.drop_first())
        }
    }
}

/// What the driver of an inbound transfer does next.
pub enum InboundAction {
    /// poll the stream once into a staging slice of this many bytes
    Read(usize),
    /// append this many bytes from the front of the staging slice to the
    /// destination, then ask for the next action
    Append(usize),
    /// the call is over
    Finish(PollResult),
}

/// The decisions of one inbound transfer call.
pub struct InboundTransfer {
    start: usize,
    remaining: usize,
    delta_limit: usize,
}

impl View for InboundTransfer {
    type V = InboundView;

    closed spec fn view(&self) -> InboundView {
        InboundView {
            start: self.start as nat,
            remaining: self.remaining as nat,
            delta_limit: self.delta_limit as nat,
        }
    }
}

impl InboundTransfer {
    /// Begins a call on a destination with `capacity` bytes of room, moving at
    /// most `delta_limit` bytes (`usize::MAX` for no limit of the caller's).
    pub fn new(capacity: usize, delta_limit: usize) -> (r: Self)
        ensures
            r@ == InboundView::fresh(capacity as nat, delta_limit as nat),
            r@.wf(),
    {
        InboundTransfer { start: capacity, remaining: capacity, delta_limit }
    }

    /// Bytes appended to the destination so far in this call.
    pub fn delta(&self) -> (r: usize)
        requires
            self@.wf(),
        ensures
            r == self@.moved(),
    {
        self.start - self.remaining
    }

    /// Requests a read of the largest size allowed, or finishes the call when
    /// that size is zero; a zero-size read is never requested.
    pub fn next_action(&self) -> (r: InboundAction)
        requires
            self@.wf(),
        ensures
            self@.request() == 0 ==> r == InboundAction::Finish(self@.completion()),
            self@.request() > 0 ==> r == InboundAction::Read(self@.request() as usize),
            r matches InboundAction::Read(k) ==> 0 < k <= STAGING_LEN && k <= self@.remaining && k
                <= self@.delta_limit - self@.moved(),
    {
        let budget = self.delta_limit - (self.start - self.remaining);
        let mut len: usize = STAGING_LEN;
        if self.remaining < len {
            len = self.remaining;
        }
        if budget < len {
            len = budget;
        }
        if len == 0 {
            InboundAction::Finish(
                PollResult {
                    delta: self.start - self.remaining,
                    ret: Poll::Ready(Ok(budget == 0)),
                },
            )
        } else {
            InboundAction::Read(len)
        }
    }

    /// Takes the outcome of the read just requested: a read that brought
    /// bytes is appended and the loop goes on; any other outcome (no bytes,
    /// not ready, an error) ends the call.
    pub fn on_read(&mut self, outcome: Poll<std::io::Result<usize>>) -> (r: InboundAction)
        requires
            old(self)@.wf(),
            old(self)@.request() > 0,
            advance(outcome) <= old(self)@.request(),
        ensures
            final(self)@.wf(),
            advance(outcome) > 0 ==> final(self)@ == old(self)@.after(advance(outcome)) && r
                == InboundAction::Append(advance(outcome) as usize),
            advance(outcome) == 0 ==> final(self)@ == old(self)@ && r == InboundAction::Finish(
                old(self)@.stop(outcome),
            ),
    {
        let n: usize = match &outcome {
            Poll::Ready(Ok(n)) => *n,
            _ => 0,
        };
        if n != 0 {
            self.remaining = self.remaining - n;
            InboundAction::Append(n)
        } else {
            InboundAction::Finish(
                PollResult { delta: self.start - self.remaining, ret: ret_reduce(outcome, false) },
            )
        }
    }
}

/// The delta that a call reports is the sum of the byte counts of the attempts
/// it made: every attempt but the last brought bytes, and the last, if it
/// ended the call, brought none.
pub proof fn lemma_inbound_delta_is_progress(s: InboundView, outs: Seq<Poll<std::io::Result<usize>>>)
    requires
        s.wf(),
        s.call(outs) is Some,
    ensures
        s.polls(outs) <= outs.len(),
        s.call(outs).unwrap().delta == s.moved() + sum_progress(outs.take(s.polls(outs) as int)),
    decreases outs.len(),
{
    if s.request() == 0 {
        assert(outs.take(0) =~= Seq::<Poll<std::io::Result<usize>>>::empty());
    } else if advance(outs[0]) == 0 {
        lemma_sum_progress_take(outs, 1);
        assert(outs.drop_first().take(0) =~= Seq::<Poll<std::io::Result<usize>>>::empty());
    } else {
        let n = advance(outs[0]);
        lemma_inbound_delta_is_progress(s.after(n), outs.drop_first());
        lemma_sum_progress_take(outs, s.polls(outs) as int);
    }
}

/// A call never moves more bytes than its limit allows, nor more than the
/// destination had room for when the call began.
pub proof fn lemma_inbound_within_limit(s: InboundView, outs: Seq<Poll<std::io::Result<usize>>>)
    requires
        s.wf(),
        s.call(outs) is Some,
    ensures
        s.call(outs).unwrap().delta <= s.delta_limit,
        s.call(outs).unwrap().delta <= s.start,
    decreases outs.len(),
{
    if s.request() > 0 && advance(outs[0]) > 0 {
        lemma_inbound_within_limit(s.after(advance(outs[0])), outs.drop_first());
    }
}

/// Every read request of a call is non-empty, fits the staging area, and,
/// added to the bytes moved before it, stays within both the limit and the
/// room that the destination had when the call began.
pub proof fn lemma_inbound_requests_fit(s: InboundView, outs: Seq<Poll<std::io::Result<usize>>>)
    requires
        s.wf(),
    ensures
        s.requests(outs).len() <= outs.len(),
        forall|i: int|
            #![trigger s.requests(outs)[i]]
            0 <= i < s.requests(outs).len() ==> {
                let before = s.moved() + sum_progress(outs.take(i));
                &&& 0 < s.requests(outs)[i] <= STAGING_LEN
                &&& s.requests(outs)[i] + before <= s.delta_limit
                &&& s.requests(outs)[i] + before <= s.start
            },
    decreases outs.len(),
{
    if s.request() == 0 || outs.len() == 0 {
    } else if advance(outs[0]) == 0 || advance(outs[0]) > s.request() {
        assert(outs.take(0) =~= Seq::<Poll<std::io::Result<usize>>>::empty());
    } else {
        let n = advance(outs[0]);
        let t = s.after(n);
        lemma_inbound_requests_fit(t, outs.drop_first());
        assert forall|i: int| 0 <= i < s.requests(outs).len() implies {
            let before = s.moved() + sum_progress(outs.take(i));
            &&& 0 < #[trigger] s.requests(outs)[i] <= STAGING_LEN
            &&& s.requests(outs)[i] + before <= s.delta_limit
            &&& s.requests(outs)[i] + before <= s.start
        } by {
            if i == 0 {
                assert(outs.take(0) =~= Seq::<Poll<std::io::Result<usize>>>::empty());
            } else {
                lemma_sum_progress_take(outs, i);
                assert(s.requests(outs)[i] == t.requests(outs.drop_first())[i - 1]);
            }
        }
    }
}

/// Two states with the same room and the same budget run a call alike; their
/// deltas differ by what each had moved before.
pub proof fn lemma_inbound_shift(s: InboundView, t: InboundView, outs: Seq<Poll<std::io::Result<usize>>>)
    requires
        s.wf(),
        t.wf(),
        s.remaining == t.remaining,
        s.budget() == t.budget(),
    ensures
        s.call(outs) is Some <==> t.call(outs) is Some,
        s.call(outs) is Some ==> s.call(outs).unwrap().ret == t.call(outs).unwrap().ret
            && s.call(outs).unwrap().delta + t.moved() == t.call(outs).unwrap().delta + s.moved(),
    decreases outs.len(),
{
    if s.request() > 0 && outs.len() > 0 && 0 < advance(outs[0]) <= s.request() {
        let n = advance(outs[0]);
        lemma_inbound_shift(s.after(n), t.after(n), outs.drop_first());
    }
}

/// Bytes that arrive before the stream is not ready, and whatever comes after,
/// leave a call at the same place as the first part would followed by the second.
pub proof fn lemma_inbound_resume(
    s: InboundView,
    progress: Seq<Poll<std::io::Result<usize>>>,
    outs: Seq<Poll<std::io::Result<usize>>>,
)
    requires
        s.wf(),
        forall|i: int| 0 <= i < progress.len() ==> advance(#[trigger] progress[i]) > 0,
        s.call(progress.push(Poll::Pending)) is Some,
        s.call(progress.push(Poll::Pending)).unwrap().ret is Pending,
    ensures
        ({
            let mid = InboundView {
                remaining: (s.start - s.call(progress.push(Poll::Pending)).unwrap().delta) as nat,
                ..s
            };
            mid.wf() && s.call(progress + outs) == mid.call(outs)
        }),
    decreases progress.len(),
{
    if progress.len() == 0 {
        assert(progress + outs =~= outs);
    } else {
        let n = advance(progress[0]);
        assert(progress.push(Poll::Pending).drop_first() =~= progress.drop_first().push(Poll::Pending));
        assert((progress + outs).drop_first() =~= progress.drop_first() + outs);
        assert((progress + outs)[0] == progress[0]);
        lemma_inbound_resume(s.after(n), progress.drop_first(), outs);
    }
}

/// Calling again after a call was suspended, on the buffer as that call left
/// it and with the limit reduced by what it moved, ends as one uninterrupted
/// call would: the two deltas add up and the second call's status is the
/// status of the whole.
pub proof fn lemma_inbound_retry(
    capacity: usize,
    delta_limit: usize,
    progress: Seq<Poll<std::io::Result<usize>>>,
    outs: Seq<Poll<std::io::Result<usize>>>,
)
    requires
        forall|i: int| 0 <= i < progress.len() ==> advance(#[trigger] progress[i]) > 0,
        InboundView::fresh(capacity as nat, delta_limit as nat).call(progress.push(Poll::Pending)) is Some,
        InboundView::fresh(capacity as nat, delta_limit as nat).call(
            progress.push(Poll::Pending),
        ).unwrap().ret is Pending,
    ensures
        ({
            let whole = InboundView::fresh(capacity as nat, delta_limit as nat);
            let d1 = whole.call(progress.push(Poll::Pending)).unwrap().delta;
            let second = InboundView::fresh((capacity - d1) as nat, (delta_limit - d1) as nat).call(outs);
            &&& d1 <= capacity && d1 <= delta_limit
            &&& whole.call(progress + outs) is Some <==> second is Some
            &&& second is Some ==> whole.call(progress + outs) == Some(
                PollResult { delta: (d1 + second.unwrap().delta) as usize, ret: second.unwrap().ret },
            )
        }),
{
    let whole = InboundView::fresh(capacity as nat, delta_limit as nat);
    let d1 = whole.call(progress.push(Poll::Pending)).unwrap().delta;
    lemma_inbound_within_limit(whole, progress.push(Poll::Pending));
    lemma_inbound_resume(whole, progress, outs);
    let mid = InboundView { remaining: (whole.start - d1) as nat, ..whole };
    let fresh = InboundView::fresh((capacity - d1) as nat, (delta_limit - d1) as nat);
    lemma_inbound_shift(mid, fresh, outs);
}

} // verus!
