use crate::exex::{on_event_spec, Action, CounterView, Event, Phase};
use crate::model::{
    blocks_above, contiguous, height_of, tip_of, txs_above, Block, ChainNotification,
    ChainSegment, Checkpoint,
};
use vstd::prelude::*;

verus! {

/// The state after the events of `evs`, taken in order from `v`.
pub open spec fn run_spec(v: CounterView, evs: Seq<Event>) -> CounterView
    decreases evs.len(),
{
    if evs.len() == 0 {
        v
    } else {
        on_event_spec(run_spec(v, evs.drop_last()), evs.last()).0
    }
}

/// The sum of the transaction counts of `s`.
pub open spec fn tx_sum(s: Seq<Block>) -> nat
    decreases s.len(),
{
    if s.len() == 0 {
        0
    } else {
        tx_sum(s.drop_last()) + s.last().tx_count as nat
    }
}

/// The number of blocks over all segments.
pub open spec fn block_total(segs: Seq<ChainSegment>) -> nat
    decreases segs.len(),
{
    if segs.len() == 0 {
        0
    } else {
        block_total(segs.drop_last()) + segs.last().blocks@.len()
    }
}

/// The number of transactions over all segments.
pub open spec fn tx_total(segs: Seq<ChainSegment>) -> nat
    decreases segs.len(),
{
    if segs.len() == 0 {
        0
    } else {
        tx_total(segs.drop_last()) + tx_sum(segs.last().blocks@)
    }
}

/// One commit notification for each segment, in order.
pub open spec fn commits(segs: Seq<ChainSegment>) -> Seq<Event> {
    Seq::new(
        segs.len(),
        |i: int| Event::Notification(ChainNotification::Committed { new: segs[i] }),
    )
}

/// Every block of `s` lies above height `h`.
pub open spec fn all_above(h: int, s: Seq<Block>) -> bool {
    forall|a: int| 0 <= a < s.len() ==> h < #[trigger] s[a].number
}

/// Every block of `s` lies at or below height `h`.
pub open spec fn none_above(h: int, s: Seq<Block>) -> bool {
    forall|a: int| 0 <= a < s.len() ==> #[trigger] s[a].number <= h
}

/// The segments' heights rise from one to the next, all above `h`: the order
/// in which a source with no reorg or revert delivers commits.
pub open spec fn heights_rise(segs: Seq<ChainSegment>, h: int) -> bool {
    &&& forall|i: int| 0 <= i < segs.len() ==> all_above(h, #[trigger] segs[i].blocks@)
    &&& forall|i: int, j: int, a: int|
        0 <= i < j < segs.len() && 0 <= a < segs[i].blocks@.len() ==> all_above(
            #[trigger] segs[i].blocks@[a].number as int,
            #[trigger] segs[j].blocks@,
        )
}

/// The checkpoint after committing the segments in order, from `seed`.
pub open spec fn last_tip(seed: Option<Checkpoint>, segs: Seq<ChainSegment>) -> Option<Checkpoint>
    decreases segs.len(),
{
    if segs.len() == 0 {
        seed
    } else {
        match tip_of(segs.last().blocks@) {
            Some(c) => Some(c),
            None => last_tip(seed, segs.drop_last()),
        }
    }
}

proof fn lemma_all_above(h: int, s: Seq<Block>)
    requires
        all_above(h, s),
    ensures
        blocks_above(s, h) == s.len(),
        txs_above(s, h) == tx_sum(s),
    decreases s.len(),
{
    if s.len() > 0 {
        assert(s.last().number > h);
        lemma_all_above(h, s.drop_last());
    }
}

proof fn lemma_none_above(h: int, s: Seq<Block>)
    requires
        none_above(h, s),
    ensures
        blocks_above(s, h) == 0,
        txs_above(s, h) == 0,
    decreases s.len(),
{
    if s.len() > 0 {
        assert(s.last().number <= h);
        lemma_none_above(h, s.drop_last());
    }
}

proof fn lemma_run_append(v: CounterView, a: Seq<Event>, b: Seq<Event>)
    ensures
        run_spec(v, a + b) == run_spec(run_spec(v, a), b),
    decreases b.len(),
{
    if b.len() == 0 {
        assert(a + b =~= a);
    } else {
        assert((a + b).drop_last() =~= a + b.drop_last());
        assert((a + b).last() == b.last());
        lemma_run_append(v, a, b.drop_last());
    }
}

proof fn lemma_run_monotone(v: CounterView, evs: Seq<Event>)
    ensures
        height_of(v.last) <= height_of(run_spec(v, evs).last),
    decreases evs.len(),
{
    if evs.len() > 0 {
        lemma_run_monotone(v, evs.drop_last());
    }
}

proof fn lemma_last_tip_below(seed: Option<Checkpoint>, segs: Seq<ChainSegment>, h: int)
    requires
        height_of(seed) < h,
        forall|i: int| 0 <= i < segs.len() ==> none_above(h - 1, #[trigger] segs[i].blocks@),
    ensures
        height_of(last_tip(seed, segs)) < h,
    decreases segs.len(),
{
    if segs.len() > 0 {
        let s = segs.last().blocks@;
        assert(none_above(h - 1, segs[segs.len() - 1].blocks@));
        if s.len() > 0 {
            assert(s[s.len() - 1].number <= h - 1);
        }
        lemma_last_tip_below(seed, segs.drop_last(), h);
    }
}

/// Every checkpoint acknowledged from state `v` lies above the one `v` holds,
/// so after a restart that restores the stored checkpoint no acknowledgment
/// goes below it.
pub proof fn lemma_acknowledgment_above_start(v: CounterView, pre: Seq<Event>, e: Event)
    requires
        on_event_spec(run_spec(v, pre), e).1 is Acknowledge,
    ensures
        on_event_spec(run_spec(v, pre), e).1->Acknowledge_0.height > height_of(v.last),
{
    lemma_run_monotone(v, pre);
}

/// The acknowledged heights rise strictly: an acknowledgment that comes
/// after another is for a higher block.
pub proof fn lemma_acknowledgments_increase(
    v: CounterView,
    pre: Seq<Event>,
    e1: Event,
    mid: Seq<Event>,
    e2: Event,
)
    requires
        on_event_spec(run_spec(v, pre), e1).1 is Acknowledge,
        on_event_spec(run_spec(v, pre.push(e1) + mid), e2).1 is Acknowledge,
    ensures
        on_event_spec(run_spec(v, pre), e1).1->Acknowledge_0.height < on_event_spec(
            run_spec(v, pre.push(e1) + mid),
            e2,
        ).1->Acknowledge_0.height,
{
    let w = run_spec(v, pre.push(e1));
    assert(pre.push(e1).drop_last() =~= pre);
    lemma_run_append(v, pre.push(e1), mid);
    lemma_run_monotone(w, mid);
}

/// Re-delivering a commit whose blocks all lie at or below the acknowledged
/// height changes neither the counters nor the checkpoint.
pub proof fn lemma_replay_is_noop(v: CounterView, new: ChainSegment)
    requires
        v.phase == Phase::Running,
        contiguous(new.blocks@),
        none_above(height_of(v.last), new.blocks@),
    ensures
        on_event_spec(v, Event::Notification(ChainNotification::Committed { new })) == (
            v,
            Action::FetchNext,
        ),
{
    let s = new.blocks@;
    lemma_none_above(height_of(v.last), s);
    assert(blocks_above(Seq::<Block>::empty(), -1) == 0);
    assert(txs_above(Seq::<Block>::empty(), -1) == 0);
    if s.len() > 0 {
        assert(s[s.len() - 1].number <= height_of(v.last));
    }
}

/// A well-formed revert never stops a running loop: it only takes counts away,
/// and a counter it would take below zero stays at zero.
pub proof fn lemma_revert_never_fatal(v: CounterView, old: ChainSegment, tip: Option<Checkpoint>)
    requires
        v.phase == Phase::Running,
        contiguous(old.blocks@),
        old.blocks@.len() > 0 && tip is Some ==> tip->0.height + 1 == old.blocks@[0].number,
    ensures
        on_event_spec(v, Event::Notification(ChainNotification::Reverted { old, tip })).0.phase
            == Phase::Running,
{
    assert(blocks_above(Seq::<Block>::empty(), -1) == 0);
    assert(txs_above(Seq::<Block>::empty(), -1) == 0);
}

/// With commits alone, delivered in rising height order, the counters grow by
/// exactly the blocks and transactions delivered, and the checkpoint is the
/// last delivered tip.
pub proof fn lemma_commits_add_up(v: CounterView, segs: Seq<ChainSegment>)
    requires
        v.phase == Phase::Running,
        forall|i: int| 0 <= i < segs.len() ==> contiguous(#[trigger] segs[i].blocks@),
        heights_rise(segs, height_of(v.last)),
        v.totals.total_blocks + block_total(segs) <= u64::MAX,
        v.totals.total_transactions + tx_total(segs) <= u64::MAX,
    ensures
        run_spec(v, commits(segs)).totals.total_blocks == v.totals.total_blocks + block_total(
            segs,
        ),
        run_spec(v, commits(segs)).totals.total_transactions == v.totals.total_transactions
            + tx_total(segs),
        run_spec(v, commits(segs)).last == last_tip(v.last, segs),
        run_spec(v, commits(segs)).phase == Phase::Running,
    decreases segs.len(),
{
    if segs.len() > 0 {
        let k = segs.len() - 1;
        let init = segs.drop_last();
        assert(commits(segs).drop_last() =~= commits(init));
        assert forall|i: int, j: int, a: int|
            0 <= i < j < init.len() && 0 <= a < init[i].blocks@.len() implies all_above(
            #[trigger] init[i].blocks@[a].number as int,
            #[trigger] init[j].blocks@,
        ) by {
            assert(all_above(segs[i].blocks@[a].number as int, segs[j].blocks@));
        }
        assert forall|i: int| 0 <= i < init.len() implies all_above(
            height_of(v.last),
            #[trigger] init[i].blocks@,
        ) by {
            assert(all_above(height_of(v.last), segs[i].blocks@));
        }
        lemma_commits_add_up(v, init);
        let w = run_spec(v, commits(init));
        let s = segs[k].blocks@;
        assert(all_above(height_of(v.last), segs[k].blocks@));
        assert forall|a: int| 0 <= a < s.len() implies height_of(w.last) < #[trigger] s[a].number by {
            assert forall|i: int| 0 <= i < init.len() implies none_above(
                s[a].number - 1,
                #[trigger] init[i].blocks@,
            ) by {
                assert forall|b: int| 0 <= b < init[i].blocks@.len() implies #[trigger] init[i].blocks@[b].number
                    <= s[a].number - 1 by {
                    assert(all_above(segs[i].blocks@[b].number as int, segs[k].blocks@));
                }
            }
            lemma_last_tip_below(v.last, init, s[a].number as int);
        }
        lemma_all_above(height_of(w.last), s);
        assert(blocks_above(Seq::<Block>::empty(), -1) == 0);
        assert(txs_above(Seq::<Block>::empty(), -1) == 0);
        assert(commits(segs).last() == Event::Notification(
            ChainNotification::Committed { new: segs[k] },
        ));
        if s.len() > 0 {
            assert(height_of(w.last) < s[s.len() - 1].number);
        }
    }
}

} // verus!
