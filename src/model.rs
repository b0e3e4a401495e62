use vstd::prelude::*;

verus! {

/// A block as the counter sees it: its height, its hash and how many
/// transactions it carries.
#[derive(Clone, Copy, Debug)]
pub struct Block {
    pub number: u64,
    pub hash: [u8; 32],
    pub tx_count: u64,
}

/// A `(height, hash)` pair that the host may be told is fully processed.
#[derive(Clone, Copy, Debug)]
pub struct Checkpoint {
    pub height: u64,
    pub hash: [u8; 32],
}

/// A run of blocks delivered together, lowest height first.
#[derive(Clone, Debug)]
pub struct ChainSegment {
    pub blocks: Vec<Block>,
}

/// One change of the canonical chain, as the host reports it.
#[derive(Clone, Debug)]
pub enum ChainNotification {
    /// `new` became canonical.
    Committed { new: ChainSegment },
    /// `old` was canonical and is replaced by `new`; the two may share a prefix.
    Reorged { old: ChainSegment, new: ChainSegment },
    /// `old` was canonical and is removed; `tip` is the chain's new tip, when
    /// the host gives it.
    Reverted { old: ChainSegment, tip: Option<Checkpoint> },
}

/// Two blocks are the same block when height and hash agree.
pub open spec fn same_block(a: Block, b: Block) -> bool {
    a.number == b.number && a.hash@ == b.hash@
}

/// Each block's height is one above the height of the block before it.
pub open spec fn contiguous(s: Seq<Block>) -> bool {
    forall|i: int| 0 <= i < s.len() - 1 ==> #[trigger] s[i + 1].number == s[i].number + 1
}

/// The checkpoint of a segment's last block, if it has one.
pub open spec fn tip_of(s: Seq<Block>) -> Option<Checkpoint> {
    if s.len() == 0 {
        None
    } else {
        Some(Checkpoint { height: s.last().number, hash: s.last().hash })
    }
}

/// The height of a checkpoint, with `-1` standing for "nothing yet".
pub open spec fn height_of(c: Option<Checkpoint>) -> int {
    match c {
        Some(c) => c.height as int,
        None => -1,
    }
}

/// How many blocks of `s` lie strictly above height `h`.
pub open spec fn blocks_above(s: Seq<Block>, h: int) -> nat
    decreases s.len(),
{
    if s.len() == 0 {
        0
    } else {
        blocks_above(s.drop_last(), h) + if s.last().number > h { 1nat } else { 0nat }
    }
}

/// How many transactions the blocks of `s` strictly above height `h` carry.
pub open spec fn txs_above(s: Seq<Block>, h: int) -> nat
    decreases s.len(),
{
    if s.len() == 0 {
        0
    } else {
        txs_above(s.drop_last(), h) + if s.last().number > h { s.last().tx_count as nat } else { 0nat }
    }
}

/// The count over a prefix one longer adds the block at its end.
pub proof fn lemma_above_extend(s: Seq<Block>, h: int, i: int)
    requires
        0 <= i < s.len(),
    ensures
        blocks_above(s.subrange(0, i + 1), h) == blocks_above(s.subrange(0, i), h) + if s[i].number
            > h { 1nat } else { 0nat },
        txs_above(s.subrange(0, i + 1), h) == txs_above(s.subrange(0, i), h) + if s[i].number > h {
            s[i].tx_count as nat
        } else {
            0nat
        },
{
    assert(s.subrange(0, i + 1).drop_last() =~= s.subrange(0, i));
}

/// Hashes compared byte by byte.
pub fn hash_eq(a: &[u8; 32], b: &[u8; 32]) -> (r: bool)
    ensures
        r == (a@ == b@),
{
    let mut i: usize = 0;
    while i < 32
        invariant
            0 <= i <= 32,
            a@.len() == 32,
            b@.len() == 32,
            forall|j: int| 0 <= j < i ==> a@[j] == b@[j],
        decreases 32 - i,
    {
        if a[i] != b[i] {
            return false;
        }
        i = i + 1;
    }
    assert(a@ =~= b@);
    true
}

impl ChainSegment {
    /// Whether the heights of the segment run up one by one.
    pub fn is_contiguous(&self) -> (r: bool)
        ensures
            r == contiguous(self.blocks@),
    {
        let n = self.blocks.len();
        if n == 0 {
            return true;
        }
        let mut i: usize = 0;
        while i + 1 < n
            invariant
                n == self.blocks@.len(),
                n > 0,
                0 <= i < n,
                forall|j: int| 0 <= j < i ==> #[trigger] self.blocks@[j + 1].number == self.blocks@[j].number + 1,
            decreases n - i,
        {
            let a = self.blocks[i].number;
            let b = self.blocks[i + 1].number;
            if a == u64::MAX || b != a + 1 {
                assert(self.blocks@[i as int + 1].number != self.blocks@[i as int].number + 1);
                return false;
            }
            i = i + 1;
        }
        true
    }

    /// The checkpoint of the last block, if there is one.
    pub fn tip(&self) -> (r: Option<Checkpoint>)
        ensures
            r == tip_of(self.blocks@),
    {
        let n = self.blocks.len();
        if n == 0 {
            None
        } else {
            let b = self.blocks[n - 1];
            Some(Checkpoint { height: b.number, hash: b.hash })
        }
    }
}

} // verus!
