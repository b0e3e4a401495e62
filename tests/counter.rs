use exex_tx_counter::aggregate::{apply, count_above, fork_point, holds, AggregateError, AggregateState};
use exex_tx_counter::checkpoint::CheckpointTracker;
use exex_tx_counter::exex::{Action, Event, Exit, LoopError, Phase, TransactionCounter};
use exex_tx_counter::model::{hash_eq, Block, ChainNotification, ChainSegment, Checkpoint};

fn h(n: u8) -> [u8; 32] {
    [n; 32]
}

fn blk(number: u64, tx_count: u64) -> Block {
    Block { number, hash: h(number as u8), tx_count }
}

fn blk_fork(number: u64, tx_count: u64, tag: u8) -> Block {
    let mut hash = h(number as u8);
    hash[31] = tag;
    Block { number, hash, tx_count }
}

fn seg(blocks: Vec<Block>) -> ChainSegment {
    ChainSegment { blocks }
}

fn commit(blocks: Vec<Block>) -> Event {
    Event::Notification(ChainNotification::Committed { new: seg(blocks) })
}

fn state(total_blocks: u64, total_transactions: u64) -> AggregateState {
    AggregateState { total_blocks, total_transactions }
}

fn acked(a: Action) -> Checkpoint {
    match a {
        Action::Acknowledge(c) => c,
        other => panic!("expected an acknowledgment, got {:?}", other),
    }
}

#[test]
fn reorg_net_effect() {
    let old = seg(vec![blk(10, 3), blk(11, 1)]);
    let new = seg(vec![blk(10, 3), blk_fork(11, 2, 7), blk_fork(12, 4, 7)]);
    let at = Checkpoint { height: 11, hash: h(11) };
    let n = ChainNotification::Reorged { old, new };
    let o = apply(state(2, 4), Some(at), &n).unwrap();
    assert_eq!(o.state, state(3, 9));
    let c = o.candidate.unwrap();
    assert_eq!(c.height, 12);
    assert_eq!(c.hash, blk_fork(12, 4, 7).hash);
}

#[test]
fn reorg_through_counter_acknowledges_new_tip() {
    let mut ex = TransactionCounter::resume(state(2, 4), Some(Checkpoint { height: 11, hash: h(11) }));
    let old = seg(vec![blk(10, 3), blk(11, 1)]);
    let new = seg(vec![blk(10, 3), blk_fork(11, 2, 7), blk_fork(12, 4, 7)]);
    let a = ex.on_event(Event::Notification(ChainNotification::Reorged { old, new }));
    assert_eq!(acked(a).height, 12);
    assert_eq!(ex.totals(), state(3, 9));
}

#[test]
fn reorg_without_shared_prefix_replaces_everything() {
    let old = seg(vec![blk(10, 3), blk(11, 1)]);
    let new = seg(vec![blk_fork(10, 5, 9)]);
    let n = ChainNotification::Reorged { old, new };
    let o = apply(state(2, 4), None, &n).unwrap();
    assert_eq!(o.state, state(1, 5));
}

#[test]
fn reorg_to_shorter_chain_is_negative() {
    let old = seg(vec![blk(10, 3), blk(11, 1), blk(12, 6)]);
    let new = seg(vec![blk(10, 3), blk_fork(11, 2, 4)]);
    let n = ChainNotification::Reorged { old, new };
    let o = apply(state(3, 10), None, &n).unwrap();
    assert_eq!(o.state, state(2, 5));
}

#[test]
fn revert_correctness() {
    let old = seg(vec![blk(12, 2)]);
    let n = ChainNotification::Reverted { old, tip: None };
    let o = apply(state(3, 9), None, &n).unwrap();
    assert_eq!(o.state, state(2, 7));
    assert!(o.candidate.is_none());
}

#[test]
fn revert_does_not_lower_checkpoint() {
    let mut ex = TransactionCounter::resume(state(3, 9), Some(Checkpoint { height: 12, hash: h(12) }));
    let tip = Some(Checkpoint { height: 11, hash: h(11) });
    let a = ex.on_event(Event::Notification(ChainNotification::Reverted { old: seg(vec![blk(12, 2)]), tip }));
    assert!(matches!(a, Action::FetchNext));
    assert_eq!(ex.totals(), state(2, 7));
    assert_eq!(ex.last_acknowledged().unwrap().height, 12);
}

#[test]
fn end_to_end_scenario() {
    let mut ex = TransactionCounter::new();
    let a = ex.on_event(commit(vec![blk(1, 3), blk(2, 5)]));
    assert_eq!(ex.totals(), state(2, 8));
    let c = acked(a);
    assert_eq!(c.height, 2);
    assert_eq!(c.hash, h(2));
    let a = ex.on_event(commit(vec![blk(3, 0)]));
    assert_eq!(ex.totals(), state(3, 8));
    let c = acked(a);
    assert_eq!(c.height, 3);
    assert_eq!(c.hash, h(3));
    assert_eq!(ex.last_acknowledged().unwrap().height, 3);
    assert_eq!(ex.phase(), Phase::Running);
}

#[test]
fn commits_add_up() {
    let mut ex = TransactionCounter::new();
    ex.on_event(commit(vec![blk(0, 1), blk(1, 2)]));
    ex.on_event(commit(vec![]));
    ex.on_event(commit(vec![blk(2, 4), blk(3, 8), blk(4, 16)]));
    assert_eq!(ex.totals(), state(5, 31));
    assert_eq!(ex.last_acknowledged().unwrap().height, 4);
}

#[test]
fn acknowledged_heights_rise() {
    let mut ex = TransactionCounter::new();
    let mut heights: Vec<u64> = Vec::new();
    let events = vec![
        commit(vec![blk(1, 1)]),
        commit(vec![blk(1, 1)]),
        commit(vec![blk(2, 1), blk(3, 1)]),
        Event::Notification(ChainNotification::Reverted {
            old: seg(vec![blk(3, 1)]),
            tip: Some(Checkpoint { height: 2, hash: h(2) }),
        }),
        commit(vec![blk_fork(3, 1, 5), blk_fork(4, 1, 5)]),
    ];
    for e in events {
        if let Action::Acknowledge(c) = ex.on_event(e) {
            heights.push(c.height);
        }
    }
    assert_eq!(heights, vec![1, 3, 4]);
}

#[test]
fn replay_after_restart_is_noop() {
    let mut ex = TransactionCounter::resume(state(2, 8), Some(Checkpoint { height: 2, hash: h(2) }));
    let a = ex.on_event(commit(vec![blk(1, 3), blk(2, 5)]));
    assert!(matches!(a, Action::FetchNext));
    assert_eq!(ex.totals(), state(2, 8));
    assert_eq!(ex.last_acknowledged().unwrap().height, 2);
}

#[test]
fn replay_overlapping_counts_only_suffix() {
    let mut ex = TransactionCounter::resume(state(2, 8), Some(Checkpoint { height: 2, hash: h(2) }));
    let a = ex.on_event(commit(vec![blk(2, 5), blk(3, 7)]));
    assert_eq!(acked(a).height, 3);
    assert_eq!(ex.totals(), state(3, 15));
}

#[test]
fn empty_segment_is_noop() {
    let o = apply(state(4, 4), None, &ChainNotification::Committed { new: seg(vec![]) }).unwrap();
    assert_eq!(o.state, state(4, 4));
    assert!(o.candidate.is_none());
    let e = ChainNotification::Reorged { old: seg(vec![]), new: seg(vec![]) };
    let o = apply(state(4, 4), None, &e).unwrap();
    assert_eq!(o.state, state(4, 4));
}

#[test]
fn malformed_segment_is_rejected() {
    let n = ChainNotification::Committed { new: seg(vec![blk(1, 1), blk(3, 1)]) };
    assert_eq!(apply(state(0, 0), None, &n).unwrap_err(), AggregateError::MalformedSegment);
    let n = ChainNotification::Reverted { old: seg(vec![blk(5, 1), blk(5, 1)]), tip: None };
    assert_eq!(apply(state(9, 9), None, &n).unwrap_err(), AggregateError::MalformedSegment);
    let mut ex = TransactionCounter::new();
    let a = ex.on_event(Event::Notification(ChainNotification::Reorged {
        old: seg(vec![blk(2, 1), blk(1, 1)]),
        new: seg(vec![]),
    }));
    let err = Exit::Fatal(LoopError::Data(AggregateError::MalformedSegment));
    assert!(matches!(a, Action::Stop(x) if x == err));
    assert_eq!(ex.phase(), Phase::Stopped(err));
    assert_eq!(ex.totals(), state(0, 0));
}

#[test]
fn revert_of_uncounted_blocks_stops_at_zero() {
    let n = ChainNotification::Reverted { old: seg(vec![blk(7, 3)]), tip: None };
    assert_eq!(apply(state(1, 2), None, &n).unwrap().state, state(0, 0));
    assert_eq!(apply(state(0, 5), None, &n).unwrap().state, state(0, 2));
}

#[test]
fn revert_after_restart_keeps_running() {
    let mut ex = TransactionCounter::resume(state(0, 0), Some(Checkpoint { height: 7, hash: h(7) }));
    let tip = Some(Checkpoint { height: 6, hash: h(6) });
    let a = ex.on_event(Event::Notification(ChainNotification::Reverted { old: seg(vec![blk(7, 4)]), tip }));
    assert!(matches!(a, Action::FetchNext));
    assert_eq!(ex.phase(), Phase::Running);
    assert_eq!(ex.totals(), state(0, 0));
    let old = seg(vec![blk(7, 4), blk(8, 1)]);
    let new = seg(vec![blk_fork(7, 2, 1), blk_fork(8, 2, 1), blk_fork(9, 2, 1)]);
    let a = ex.on_event(Event::Notification(ChainNotification::Reorged { old, new }));
    assert_eq!(acked(a).height, 9);
    assert_eq!(ex.totals(), state(3, 6));
}

#[test]
fn counter_overflow_is_reported() {
    let n = ChainNotification::Committed { new: seg(vec![blk(1, 2)]) };
    assert_eq!(apply(state(0, u64::MAX - 1), None, &n).unwrap_err(), AggregateError::Overflow);
    let n = ChainNotification::Committed { new: seg(vec![blk(1, u64::MAX), blk(2, 1)]) };
    assert_eq!(apply(state(0, 0), None, &n).unwrap_err(), AggregateError::Overflow);
    let o = apply(state(0, u64::MAX - 2), None, &ChainNotification::Committed { new: seg(vec![blk(1, 2)]) }).unwrap();
    assert_eq!(o.state, state(1, u64::MAX));
}

#[test]
fn loop_stops_on_each_terminal_event() {
    let cases = vec![
        (Event::StreamEnded, Exit::Clean),
        (Event::SourceFailed, Exit::Fatal(LoopError::SourceFailure)),
        (Event::AckFailed, Exit::Fatal(LoopError::SinkFailure)),
        (Event::Cancelled, Exit::Cancelled),
    ];
    for (ev, exit) in cases {
        let mut ex = TransactionCounter::new();
        ex.on_event(commit(vec![blk(1, 3)]));
        let a = ex.on_event(ev);
        assert!(matches!(a, Action::Stop(x) if x == exit));
        assert_eq!(ex.phase(), Phase::Stopped(exit));
        assert_eq!(ex.totals(), state(1, 3));
        let a = ex.on_event(commit(vec![blk(2, 3)]));
        assert!(matches!(a, Action::Stop(x) if x == exit));
        assert_eq!(ex.totals(), state(1, 3));
    }
}

#[test]
fn tracker_takes_only_higher_heights() {
    let mut t = CheckpointTracker::new();
    assert!(t.last().is_none());
    assert_eq!(t.advance(Checkpoint { height: 0, hash: h(0) }).unwrap().height, 0);
    assert!(t.advance(Checkpoint { height: 0, hash: h(9) }).is_none());
    assert_eq!(t.last().unwrap().hash, h(0));
    let mut t = CheckpointTracker::resume(Checkpoint { height: 5, hash: h(5) });
    assert!(t.advance(Checkpoint { height: 4, hash: h(4) }).is_none());
    assert_eq!(t.advance(Checkpoint { height: 6, hash: h(6) }).unwrap().height, 6);
    assert_eq!(t.last().unwrap().height, 6);
}

#[test]
fn counting_and_fork_helpers() {
    let blocks = vec![blk(3, 1), blk(4, 10), blk(5, 100)];
    assert_eq!(count_above(&blocks, None), (Some(3), Some(111)));
    assert_eq!(count_above(&blocks, Some(3)), (Some(2), Some(110)));
    assert_eq!(count_above(&blocks, Some(5)), (Some(0), Some(0)));
    let huge = vec![blk(1, u64::MAX), blk(2, 1)];
    assert_eq!(count_above(&huge, None), (Some(2), None));
    let other = vec![blk(3, 1), blk_fork(4, 10, 1)];
    assert_eq!(fork_point(&blocks, &other), Some(3));
    assert_eq!(fork_point(&blocks, &blocks), Some(5));
    assert_eq!(fork_point(&blocks, &vec![blk_fork(3, 1, 2)]), None);
    assert!(hash_eq(&h(1), &h(1)));
    assert!(!hash_eq(&h(1), &blk_fork(1, 0, 0).hash));
    assert!(seg(vec![blk(8, 0), blk(9, 0)]).is_contiguous());
    assert!(!seg(vec![blk(u64::MAX, 0), blk(0, 0)]).is_contiguous());
    assert_eq!(seg(vec![blk(8, 0), blk(9, 0)]).tip().unwrap().height, 9);
}

#[test]
fn reorg_segments_starting_at_different_heights() {
    let old = seg(vec![blk(10, 3), blk(11, 1)]);
    let new = seg(vec![blk(11, 1), blk_fork(12, 4, 3)]);
    let n = ChainNotification::Reorged { old, new };
    let o = apply(state(2, 4), None, &n).unwrap();
    assert_eq!(o.state, state(3, 8));
    assert_eq!(o.candidate.unwrap().height, 12);
}

#[test]
fn reorg_new_segment_reaching_below_old_counts_shared_once() {
    let old = seg(vec![blk(11, 1)]);
    let new = seg(vec![blk(10, 3), blk(11, 1), blk_fork(12, 4, 3)]);
    let n = ChainNotification::Reorged { old, new };
    let o = apply(state(2, 4), None, &n).unwrap();
    assert_eq!(o.state, state(3, 8));
}

#[test]
fn fork_point_lines_up_by_height() {
    let old = vec![blk(10, 3), blk(11, 1)];
    assert_eq!(fork_point(&old, &vec![blk(11, 1), blk_fork(12, 4, 3)]), Some(11));
    assert_eq!(fork_point(&vec![blk(11, 1)], &vec![blk(10, 3), blk(11, 1)]), Some(11));
    assert_eq!(fork_point(&old, &vec![blk_fork(11, 1, 2), blk_fork(12, 4, 3)]), None);
    assert_eq!(fork_point(&old, &vec![blk(10, 3), blk_fork(11, 1, 2)]), Some(10));
    assert!(holds(&vec![blk(5, 0), blk(6, 0)], &blk(6, 0)));
    assert!(!holds(&vec![blk(5, 0), blk(6, 0)], &blk(7, 0)));
    assert!(!holds(&vec![blk(5, 0), blk(6, 0)], &blk_fork(6, 0, 1)));
}

#[test]
fn revert_tip_must_lie_below_removed_blocks() {
    let tip = Some(Checkpoint { height: 99, hash: h(99) });
    let n = ChainNotification::Reverted { old: seg(vec![blk(12, 2)]), tip };
    assert_eq!(apply(state(3, 9), None, &n).unwrap_err(), AggregateError::MalformedSegment);
    let n = ChainNotification::Reverted { old: seg(vec![]), tip };
    let o = apply(state(3, 9), None, &n).unwrap();
    assert_eq!(o.state, state(3, 9));
    assert!(o.candidate.is_none());
}
