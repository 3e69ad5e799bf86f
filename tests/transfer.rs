use std::io::{Error, ErrorKind};
use std::task::Poll;

use poll_transfer::inbound::{InboundAction, InboundTransfer, STAGING_LEN};
use poll_transfer::outbound::{OutboundAction, OutboundTransfer};
use poll_transfer::{ret_reduce, PollResult};

/// Runs an inbound call against a scripted stream. Returns the result, the
/// sizes of the reads requested, and the bytes appended.
fn run_inbound(
    capacity: usize,
    delta_limit: usize,
    mut script: impl FnMut(usize) -> Poll<std::io::Result<usize>>,
) -> (PollResult, Vec<usize>, usize) {
    let mut transfer = InboundTransfer::new(capacity, delta_limit);
    let mut requests = Vec::new();
    let mut appended = 0;
    let mut action = transfer.next_action();
    loop {
        action = match action {
            InboundAction::Read(len) => {
                requests.push(len);
                transfer.on_read(script(len))
            }
            InboundAction::Append(n) => {
                appended += n;
                transfer.next_action()
            }
            InboundAction::Finish(r) => return (r, requests, appended),
        }
    }
}

/// Runs an outbound call against a scripted stream. Returns the result, the
/// number of writes attempted, and the bytes consumed.
fn run_outbound(
    unconsumed: usize,
    mut script: impl FnMut(usize) -> Poll<std::io::Result<usize>>,
) -> (PollResult, usize, usize) {
    let mut transfer = OutboundTransfer::new(unconsumed);
    let mut left = unconsumed;
    let mut writes = 0;
    let mut action = transfer.next_action();
    loop {
        action = match action {
            OutboundAction::Write => {
                writes += 1;
                transfer.on_write(script(left))
            }
            OutboundAction::Advance(n) => {
                left -= n;
                transfer.next_action()
            }
            OutboundAction::Finish(r) => return (r, writes, unconsumed - left),
        }
    }
}

fn failure() -> Poll<std::io::Result<usize>> {
    Poll::Ready(Err(Error::new(ErrorKind::Other, "stream broke")))
}

#[test]
fn inbound_partial_reads_then_not_ready() {
    let mut script = vec![Poll::Ready(Ok(4)), Poll::Ready(Ok(3)), Poll::Pending].into_iter();
    let (r, requests, appended) = run_inbound(10, usize::MAX, |_| script.next().unwrap());
    assert_eq!(r.delta, 7);
    assert!(r.ret.is_pending());
    assert_eq!(appended, 7);
    assert_eq!(requests, vec![10, 6, 3]);
}

#[test]
fn inbound_fills_buffer_without_limit() {
    let (r, requests, appended) = run_inbound(5, usize::MAX, |len| Poll::Ready(Ok(len.min(5))));
    assert_eq!(r.delta, 5);
    assert!(matches!(r.ret, Poll::Ready(Ok(false))));
    assert_eq!(appended, 5);
    assert_eq!(requests, vec![5]);
}

#[test]
fn inbound_stops_at_delta_limit() {
    let (r, requests, _) = run_inbound(1000, 3, |len| Poll::Ready(Ok(len)));
    assert_eq!(r.delta, 3);
    assert!(matches!(r.ret, Poll::Ready(Ok(true))));
    assert!(requests.iter().all(|&k| k <= 3));
    assert_eq!(requests, vec![3]);
}

#[test]
fn inbound_limit_counts_bytes_already_moved() {
    let (r, requests, _) = run_inbound(1000, 10, |len| Poll::Ready(Ok(len.min(4))));
    assert_eq!(r.delta, 10);
    assert!(matches!(r.ret, Poll::Ready(Ok(true))));
    assert_eq!(requests, vec![10, 6, 2]);
}

#[test]
fn inbound_reads_in_staging_sized_pieces() {
    let (r, requests, _) = run_inbound(20000, usize::MAX, |len| Poll::Ready(Ok(len)));
    assert_eq!(r.delta, 20000);
    assert!(matches!(r.ret, Poll::Ready(Ok(false))));
    assert_eq!(requests, vec![STAGING_LEN, STAGING_LEN, 20000 - 2 * STAGING_LEN]);
}

#[test]
fn inbound_error_on_first_attempt() {
    let (r, requests, _) = run_inbound(10, usize::MAX, |_| failure());
    assert_eq!(r.delta, 0);
    assert_eq!(requests, vec![10]);
    match r.ret {
        Poll::Ready(Err(e)) => assert_eq!(e.kind(), ErrorKind::Other),
        _ => panic!("expected the stream's error"),
    }
}

#[test]
fn inbound_zero_byte_read_ends_call() {
    let (r, requests, _) = run_inbound(10, usize::MAX, |_| Poll::Ready(Ok(0)));
    assert_eq!(r.delta, 0);
    assert!(matches!(r.ret, Poll::Ready(Ok(false))));
    assert_eq!(requests.len(), 1);
}

#[test]
fn inbound_full_buffer_makes_no_stream_call() {
    let (r, requests, _) = run_inbound(0, usize::MAX, |_| panic!("no read expected"));
    assert_eq!(r.delta, 0);
    assert!(matches!(r.ret, Poll::Ready(Ok(false))));
    assert!(requests.is_empty());
}

#[test]
fn inbound_zero_limit_makes_no_stream_call() {
    let (r, requests, _) = run_inbound(10, 0, |_| panic!("no read expected"));
    assert_eq!(r.delta, 0);
    assert!(matches!(r.ret, Poll::Ready(Ok(true))));
    assert!(requests.is_empty());
}

#[test]
fn inbound_error_after_progress_keeps_delta() {
    let mut script = vec![Poll::Ready(Ok(2)), failure()].into_iter();
    let (r, _, _) = run_inbound(10, usize::MAX, |_| script.next().unwrap());
    assert_eq!(r.delta, 2);
    assert!(matches!(r.ret, Poll::Ready(Err(_))));
}

#[test]
fn inbound_retry_after_suspension_adds_up() {
    let mut first = vec![Poll::Ready(Ok(4)), Poll::Pending].into_iter();
    let (r1, _, _) = run_inbound(10, 8, |_| first.next().unwrap());
    assert_eq!(r1.delta, 4);
    assert!(r1.ret.is_pending());
    let (r2, _, _) = run_inbound(10 - r1.delta, 8 - r1.delta, |len| Poll::Ready(Ok(len)));
    let mut whole = vec![Poll::Ready(Ok(4))].into_iter();
    let (r, _, _) = run_inbound(10, 8, |len| whole.next().unwrap_or(Poll::Ready(Ok(len))));
    assert_eq!(r1.delta + r2.delta, r.delta);
    assert_eq!(r.delta, 8);
    assert!(matches!(r2.ret, Poll::Ready(Ok(true))));
    assert!(matches!(r.ret, Poll::Ready(Ok(true))));
}

#[test]
fn inbound_delta_is_sum_of_counts() {
    let mut script = vec![Poll::Ready(Ok(1)), Poll::Ready(Ok(5)), Poll::Ready(Ok(2)), Poll::Ready(Ok(0))].into_iter();
    let (r, _, appended) = run_inbound(100, usize::MAX, |_| script.next().unwrap());
    assert_eq!(r.delta, 8);
    assert_eq!(appended, 8);
}

#[test]
fn inbound_step_reports_delta() {
    let mut t = InboundTransfer::new(10, usize::MAX);
    assert_eq!(t.delta(), 0);
    assert!(matches!(t.on_read(Poll::Ready(Ok(6))), InboundAction::Append(6)));
    assert_eq!(t.delta(), 6);
    assert!(matches!(t.next_action(), InboundAction::Read(4)));
}

#[test]
fn outbound_empty_source_makes_no_stream_call() {
    let (r, writes, _) = run_outbound(0, |_| panic!("no write expected"));
    assert_eq!(r.delta, 0);
    assert!(matches!(r.ret, Poll::Ready(Ok(true))));
    assert_eq!(writes, 0);
}

#[test]
fn outbound_drains_source() {
    let (r, writes, consumed) = run_outbound(10, |left| Poll::Ready(Ok(left.min(4))));
    assert_eq!(r.delta, 10);
    assert_eq!(consumed, 10);
    assert!(matches!(r.ret, Poll::Ready(Ok(true))));
    assert_eq!(writes, 3);
}

#[test]
fn outbound_partial_write_then_not_ready() {
    let mut script = vec![Poll::Ready(Ok(4)), Poll::Ready(Ok(3)), Poll::Pending].into_iter();
    let (r, writes, _) = run_outbound(10, |_| script.next().unwrap());
    assert_eq!(r.delta, 7);
    assert!(r.ret.is_pending());
    assert_eq!(writes, 3);
}

#[test]
fn outbound_zero_byte_write_reports_limit_not_reached() {
    let mut script = vec![Poll::Ready(Ok(2)), Poll::Ready(Ok(0))].into_iter();
    let (r, _, _) = run_outbound(10, |_| script.next().unwrap());
    assert_eq!(r.delta, 2);
    assert!(matches!(r.ret, Poll::Ready(Ok(false))));
}

#[test]
fn outbound_error_on_first_attempt() {
    let (r, writes, _) = run_outbound(10, |_| failure());
    assert_eq!(r.delta, 0);
    assert_eq!(writes, 1);
    match r.ret {
        Poll::Ready(Err(e)) => assert_eq!(e.kind(), ErrorKind::Other),
        _ => panic!("expected the stream's error"),
    }
}

#[test]
fn outbound_retry_after_suspension_adds_up() {
    let mut first = vec![Poll::Ready(Ok(3)), Poll::Pending].into_iter();
    let (r1, _, _) = run_outbound(10, |_| first.next().unwrap());
    assert!(r1.ret.is_pending());
    let (r2, _, _) = run_outbound(10 - r1.delta, |left| Poll::Ready(Ok(left)));
    let mut whole = vec![Poll::Ready(Ok(3))].into_iter();
    let (r, _, _) = run_outbound(10, |left| whole.next().unwrap_or(Poll::Ready(Ok(left))));
    assert_eq!(r1.delta + r2.delta, r.delta);
    assert_eq!(r.delta, 10);
    assert!(matches!(r2.ret, Poll::Ready(Ok(true))));
    assert!(matches!(r.ret, Poll::Ready(Ok(true))));
}

#[test]
fn outbound_step_reports_delta() {
    let mut t = OutboundTransfer::new(5);
    assert!(matches!(t.next_action(), OutboundAction::Write));
    assert!(matches!(t.on_write(Poll::Ready(Ok(5))), OutboundAction::Advance(5)));
    assert_eq!(t.delta(), 5);
    assert!(matches!(t.next_action(), OutboundAction::Finish(_)));
}

#[test]
fn reduce_drops_count_and_keeps_error() {
    assert!(matches!(ret_reduce(Poll::Ready(Ok(9)), true), Poll::Ready(Ok(true))));
    assert!(matches!(ret_reduce(Poll::Ready(Ok(0)), false), Poll::Ready(Ok(false))));
    assert!(ret_reduce(Poll::Pending, true).is_pending());
    match ret_reduce(Poll::Ready(Err(Error::new(ErrorKind::BrokenPipe, "x"))), true) {
        Poll::Ready(Err(e)) => assert_eq!(e.kind(), ErrorKind::BrokenPipe),
        _ => panic!("expected the error"),
    }
}
