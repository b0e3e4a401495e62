use crate::model::{
    blocks_above, contiguous, lemma_above_extend, same_block, tip_of,
    txs_above, hash_eq, Block, ChainNotification, Checkpoint,
};
use vstd::prelude::*;

verus! {

/// The counters of the canonical chain's contents.
#[derive(Clone, Copy, Debug, PartialEq, Eq, Structural)]
pub struct AggregateState {
    pub total_blocks: u64,
    pub total_transactions: u64,
}

/// Why a notification could not be folded into the counters.
#[derive(Clone, Copy, Debug, PartialEq, Eq, Structural)]
pub enum AggregateError {
    /// A segment's heights do not run up one by one.
    MalformedSegment,
    /// A counter would pass `u64::MAX`.
    Overflow,
}

/// The counters after a notification, and the checkpoint it proposes.
#[derive(Clone, Copy, Debug)]
pub struct Outcome {
    pub state: AggregateState,
    pub candidate: Option<Checkpoint>,
}

/// A height bound, with `None` standing below every height.
pub open spec fn floor_of(h: Option<u64>) -> int {
    match h {
        Some(x) => x as int,
        None => -1,
    }
}

/// `s` holds block `b`: a block of the same height and hash.
pub open spec fn holds_block(s: Seq<Block>, b: Block) -> bool {
    exists|j: int| 0 <= j < s.len() && same_block(#[trigger] s[j], b)
}

/// The fork point of a reorg: the height of the highest block of `old` that
/// `new` holds too, or `-1`, below both segments, when they share no block.
/// The two segments are lined up by height, wherever each of them starts.
pub open spec fn fork_height(old: Seq<Block>, new: Seq<Block>) -> int
    decreases old.len(),
{
    if old.len() == 0 {
        -1
    } else if holds_block(new, old.last()) {
        old.last().number as int
    } else {
        fork_height(old.drop_last(), new)
    }
}

/// In a contiguous segment the block at index `j` lies `j` above the first.
pub proof fn lemma_height_at(s: Seq<Block>, j: int)
    requires
        contiguous(s),
        0 <= j < s.len(),
    ensures
        s[j].number == s[0].number + j,
    decreases j,
{
    if j > 0 {
        lemma_height_at(s, j - 1);
        assert(s[(j - 1) + 1].number == s[j - 1].number + 1);
    }
}

/// For a contiguous `old`, `fork_height` is the highest height at which both
/// segments hold the same block, and `-1` exactly when there is none.
pub proof fn lemma_fork_is_highest_shared(old: Seq<Block>, new: Seq<Block>)
    requires
        contiguous(old),
    ensures
        forall|i: int|
            0 <= i < old.len() && holds_block(new, #[trigger] old[i]) ==> old[i].number
                <= fork_height(old, new),
        fork_height(old, new) == -1 || exists|i: int|
            0 <= i < old.len() && holds_block(new, old[i]) && old[i].number == fork_height(
                old,
                new,
            ),
        fork_height(old, new) == -1 ==> forall|i: int|
            0 <= i < old.len() ==> !holds_block(new, #[trigger] old[i]),
    decreases old.len(),
{
    if old.len() > 0 {
        let k = old.len() - 1;
        let init = old.drop_last();
        assert forall|i: int| 0 <= i < init.len() - 1 implies #[trigger] init[i + 1].number
            == init[i].number + 1 by {
            assert(old[i + 1].number == old[i].number + 1);
        }
        lemma_fork_is_highest_shared(init, new);
        if holds_block(new, old[k]) {
            assert forall|i: int| 0 <= i < old.len() implies old[i].number <= old[k].number by {
                lemma_height_at(old, i);
                lemma_height_at(old, k);
            }
        } else {
            assert forall|i: int|
                0 <= i < old.len() && holds_block(new, #[trigger] old[i]) implies old[i].number
                <= fork_height(old, new) by {
                if i < k {
                    assert(init[i] == old[i]);
                }
            }
            if fork_height(old, new) != -1 {
                let i = choose|i: int|
                    0 <= i < init.len() && holds_block(new, init[i]) && init[i].number
                        == fork_height(init, new);
                assert(old[i] == init[i]);
            } else {
                assert forall|i: int| 0 <= i < old.len() implies !holds_block(
                    new,
                    #[trigger] old[i],
                ) by {
                    if i < k {
                        assert(init[i] == old[i]);
                    }
                }
            }
        }
    }
}

/// Every segment of the notification is contiguous, and a revert's tip, when
/// given, lies just below the first block it removes.
pub open spec fn notification_wf(n: ChainNotification) -> bool {
    match n {
        ChainNotification::Committed { new } => contiguous(new.blocks@),
        ChainNotification::Reorged { old, new } => contiguous(old.blocks@) && contiguous(
            new.blocks@,
        ),
        ChainNotification::Reverted { old, tip } => contiguous(old.blocks@) && (old.blocks@.len()
            > 0 && tip is Some ==> tip->0.height + 1 == old.blocks@[0].number),
    }
}

/// The blocks whose counts a notification takes away: those of the returned
/// segment above the returned height.
pub open spec fn removal(n: ChainNotification) -> (Seq<Block>, int) {
    match n {
        ChainNotification::Committed { .. } => (Seq::empty(), -1),
        ChainNotification::Reorged { old, new } => (
            old.blocks@,
            fork_height(old.blocks@, new.blocks@),
        ),
        ChainNotification::Reverted { old, .. } => (old.blocks@, -1),
    }
}

/// The blocks whose counts a notification adds, given the acknowledged
/// height `ack`: those of the returned segment above the returned height.
pub open spec fn addition(n: ChainNotification, ack: int) -> (Seq<Block>, int) {
    match n {
        ChainNotification::Committed { new } => (new.blocks@, ack),
        ChainNotification::Reorged { old, new } => (
            new.blocks@,
            fork_height(old.blocks@, new.blocks@),
        ),
        ChainNotification::Reverted { .. } => (Seq::empty(), -1),
    }
}

/// The checkpoint a notification proposes.
pub open spec fn candidate_of(n: ChainNotification) -> Option<Checkpoint> {
    match n {
        ChainNotification::Committed { new } => tip_of(new.blocks@),
        ChainNotification::Reorged { new, .. } => tip_of(new.blocks@),
        ChainNotification::Reverted { old, tip } => if old.blocks@.len() == 0 {
            None
        } else {
            tip
        },
    }
}

/// `x - y`, or zero where `y` is larger: a removal of blocks that were never
/// counted, such as those from before a restart, leaves the counter at zero.
pub open spec fn sub_or_zero(x: int, y: int) -> int {
    if y > x {
        0
    } else {
        x - y
    }
}

/// What folding `n` into `st` gives, when `checkpoint` is the acknowledged one.
pub open spec fn apply_spec(
    st: AggregateState,
    checkpoint: Option<Checkpoint>,
    n: ChainNotification,
) -> Result<Outcome, AggregateError> {
    let (rs, rh) = removal(n);
    let (adds, ah) = addition(n, crate::model::height_of(checkpoint));
    let rb = blocks_above(rs, rh);
    let rt = txs_above(rs, rh);
    let ab = blocks_above(adds, ah);
    let at = txs_above(adds, ah);
    let b = sub_or_zero(st.total_blocks as int, rb as int) + ab;
    let t = sub_or_zero(st.total_transactions as int, rt as int) + at;
    if !notification_wf(n) {
        Err(AggregateError::MalformedSegment)
    } else if b > u64::MAX || t > u64::MAX {
        Err(AggregateError::Overflow)
    } else {
        Ok(
            Outcome {
                state: AggregateState { total_blocks: b as u64, total_transactions: t as u64 },
                candidate: candidate_of(n),
            },
        )
    }
}

/// `c` is the count `n`, or `None` where `n` passes `u64::MAX`.
pub open spec fn fits(c: Option<u64>, n: nat) -> bool {
    match c {
        Some(x) => x == n,
        None => n > u64::MAX,
    }
}

/// `c` holds the block count and the transaction count of `s` above `h`, each
/// `None` where it passes `u64::MAX`.
pub open spec fn counted(c: (Option<u64>, Option<u64>), s: Seq<Block>, h: int) -> bool {
    fits(c.0, blocks_above(s, h)) && fits(c.1, txs_above(s, h))
}

impl AggregateState {
    /// Both counters at zero.
    pub fn new() -> (r: AggregateState)
        ensures
            r.total_blocks == 0,
            r.total_transactions == 0,
    {
        AggregateState { total_blocks: 0, total_transactions: 0 }
    }
}

/// Counts the blocks above `floor` (all of them for `None`) and their
/// transactions.
pub fn count_above(blocks: &Vec<Block>, floor: Option<u64>) -> (r: (Option<u64>, Option<u64>))
    ensures
        counted(r, blocks@, floor_of(floor)),
{
    let ghost h = floor_of(floor);
    let mut b: u64 = 0;
    let mut t: u64 = 0;
    let mut b_over = false;
    let mut t_over = false;
    let mut i: usize = 0;
    assert(blocks@.subrange(0, 0).len() == 0);
    while i < blocks.len()
        invariant
            0 <= i <= blocks@.len(),
            h == floor_of(floor),
            !b_over ==> b == blocks_above(blocks@.subrange(0, i as int), h),
            b_over ==> blocks_above(blocks@.subrange(0, i as int), h) > u64::MAX,
            !t_over ==> t == txs_above(blocks@.subrange(0, i as int), h),
            t_over ==> txs_above(blocks@.subrange(0, i as int), h) > u64::MAX,
        decreases blocks@.len() - i,
    {
        let blk = blocks[i];
        let above = match floor {
            Some(x) => blk.number > x,
            None => true,
        };
        proof {
            lemma_above_extend(blocks@, h, i as int);
        }
        if above {
            if !b_over {
                if b == u64::MAX {
                    b_over = true;
                } else {
                    b = b + 1;
                }
            }
            if !t_over {
                if t > u64::MAX - blk.tx_count {
                    t_over = true;
                } else {
                    t = t + blk.tx_count;
                }
            }
        }
        i = i + 1;
    }
    assert(blocks@.subrange(0, blocks@.len() as int) =~= blocks@);
    (if b_over { None } else { Some(b) }, if t_over { None } else { Some(t) })
}

/// Whether the contiguous segment `new` holds block `b`, found by its height.
pub fn holds(new: &Vec<Block>, b: &Block) -> (r: bool)
    requires
        contiguous(new@),
    ensures
        r == holds_block(new@, *b),
{
    let len = new.len();
    if len == 0 {
        return false;
    }
    let first = new[0].number;
    proof {
        assert forall|j: int| 0 <= j < len implies #[trigger] new@[j].number == first + j by {
            lemma_height_at(new@, j);
        }
    }
    if b.number < first || b.number - first >= len as u64 {
        assert forall|j: int| 0 <= j < len implies !same_block(#[trigger] new@[j], *b) by {
            assert(new@[j].number == first + j);
        }
        return false;
    }
    let k = (b.number - first) as usize;
    let c = new[k];
    let r = c.number == b.number && hash_eq(&c.hash, &b.hash);
    assert forall|j: int| 0 <= j < len && j != k implies !same_block(#[trigger] new@[j], *b) by {
        assert(new@[j].number == first + j);
    }
    r
}

/// The fork point of a reorg from `old` to the contiguous `new`, `None` when
/// they share no block.
pub fn fork_point(old: &Vec<Block>, new: &Vec<Block>) -> (r: Option<u64>)
    requires
        contiguous(new@),
    ensures
        floor_of(r) == fork_height(old@, new@),
{
    let mut i: usize = old.len();
    assert(old@.subrange(0, i as int) =~= old@);
    while i > 0
        invariant
            0 <= i <= old@.len(),
            contiguous(new@),
            fork_height(old@, new@) == fork_height(old@.subrange(0, i as int), new@),
        decreases i,
    {
        let b = old[i - 1];
        assert(old@.subrange(0, i as int).drop_last() =~= old@.subrange(0, i - 1));
        if holds(new, &b) {
            return Some(b.number);
        }
        i = i - 1;
    }
    None
}

/// Folds a notification into the counters, given the acknowledged
/// checkpoint. A commit counts only its blocks above that checkpoint, so a
/// replayed commit counts nothing twice; a reorg takes away the old blocks and
/// adds the new ones above the fork point; a revert takes away the whole old
/// segment. What is taken away leaves a counter at zero at least.
pub fn apply(st: AggregateState, checkpoint: Option<Checkpoint>, n: &ChainNotification) -> (r:
    Result<Outcome, AggregateError>)
    ensures
        r == apply_spec(st, checkpoint, *n),
{
    let ack: Option<u64> = match checkpoint {
        Some(c) => Some(c.height),
        None => None,
    };
    let removed: (Option<u64>, Option<u64>);
    let added: (Option<u64>, Option<u64>);
    let candidate: Option<Checkpoint>;
    match n {
        ChainNotification::Committed { new } => {
            if !new.is_contiguous() {
                return Err(AggregateError::MalformedSegment);
            }
            removed = (Some(0), Some(0));
            added = count_above(&new.blocks, ack);
            candidate = new.tip();
        },
        ChainNotification::Reorged { old, new } => {
            if !old.is_contiguous() || !new.is_contiguous() {
                return Err(AggregateError::MalformedSegment);
            }
            let fork = fork_point(&old.blocks, &new.blocks);
            removed = count_above(&old.blocks, fork);
            added = count_above(&new.blocks, fork);
            candidate = new.tip();
        },
        ChainNotification::Reverted { old, tip } => {
            if !old.is_contiguous() {
                return Err(AggregateError::MalformedSegment);
            }
            let len = old.blocks.len();
            if let Some(t) = tip {
                if len > 0 && (t.height == u64::MAX || t.height + 1 != old.blocks[0].number) {
                    return Err(AggregateError::MalformedSegment);
                }
            }
            removed = count_above(&old.blocks, None);
            added = (Some(0), Some(0));
            candidate = if len == 0 {
                None
            } else {
                *tip
            };
        },
    }
    let ghost (rs, rh) = removal(*n);
    let ghost (adds, ah) = addition(*n, crate::model::height_of(checkpoint));
    assert(counted(removed, rs, rh));
    assert(counted(added, adds, ah));
    assert(candidate == candidate_of(*n));
    let b0 = match removed.0 {
        Some(x) => if x > st.total_blocks {
            0
        } else {
            st.total_blocks - x
        },
        None => 0,
    };
    let t0 = match removed.1 {
        Some(x) => if x > st.total_transactions {
            0
        } else {
            st.total_transactions - x
        },
        None => 0,
    };
    let (ab, at) = match added {
        (Some(x), Some(y)) => (x, y),
        _ => {
            return Err(AggregateError::Overflow);
        },
    };
    if ab > u64::MAX - b0 || at > u64::MAX - t0 {
        return Err(AggregateError::Overflow);
    }
    Ok(
        Outcome {
            state: AggregateState { total_blocks: b0 + ab, total_transactions: t0 + at },
            candidate,
        },
    )
}

} // verus!
