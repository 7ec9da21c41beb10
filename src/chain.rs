//! The ledger: a genesis block followed by appended, mined blocks, each
//! linked to its predecessor's hash.

use vstd::prelude::*;

use crate::block::{
    has_leading_zeros, is_sealed, meets_difficulty, recomputed_hash, unsealable, Block, BlockView,
    MiningError,
};
use crate::digest::{bytes_eq, copy_bytes, hex_of, sha512_of};
use crate::envelope::{canonical_bytes, genesis_record, NodeData};

verus! {

/// The difficulty a ledger is built with unless one is given.
pub const DEFAULT_DIFFICULTY: usize = 3;

/// The text "__GENESIS" in ASCII: the previous hash of every genesis block.
pub open spec fn genesis_sentinel() -> Seq<u8> {
    seq![95u8, 95, 71, 69, 78, 69, 83, 73, 83]
}

/// `cur` follows `prev` in a valid chain of difficulty `d`.
pub open spec fn link_ok(prev: BlockView, cur: BlockView, d: nat) -> bool {
    &&& cur.hash == recomputed_hash(cur)
    &&& cur.previous_hash == prev.hash
    &&& meets_difficulty(cur.hash, d)
}

/// Every block after the first is sealed at difficulty `d` and linked to
/// the block before it.
pub open spec fn chain_valid(blocks: Seq<BlockView>, d: nat) -> bool {
    forall|i: int| 1 <= i < blocks.len() ==> #[trigger] link_ok(blocks[i - 1], blocks[i], d)
}

/// Appending a block that is sealed at the chain's difficulty and linked to
/// the last block keeps a valid chain valid.
pub proof fn lemma_append_keeps_valid(blocks: Seq<BlockView>, b: BlockView, d: nat)
    requires
        chain_valid(blocks, d),
        blocks.len() >= 1,
        b.previous_hash == blocks.last().hash,
        is_sealed(b, d),
    ensures
        chain_valid(blocks.push(b), d),
{
    let c = blocks.push(b);
    assert forall|i: int| 1 <= i < c.len() implies #[trigger] link_ok(c[i - 1], c[i], d) by {
        if i < blocks.len() {
            assert(link_ok(blocks[i - 1], blocks[i], d));
        }
    }
}

/// Replacing the stored hash of any block after the first with another
/// value makes a valid chain invalid.
pub proof fn lemma_altered_hash_invalid(blocks: Seq<BlockView>, d: nat, i: int, h: Seq<u8>)
    requires
        chain_valid(blocks, d),
        1 <= i < blocks.len(),
        h != blocks[i].hash,
    ensures
        !chain_valid(blocks.update(i, BlockView { hash: h, ..blocks[i] }), d),
{
    let c = blocks.update(i, BlockView { hash: h, ..blocks[i] });
    assert(link_ok(blocks[i - 1], blocks[i], d));
    assert(recomputed_hash(c[i]) == recomputed_hash(blocks[i]));
    assert(!link_ok(c[i - 1], c[i], d));
}

/// Replacing the stored previous hash of any block after the first with
/// another value makes a valid chain invalid.
pub proof fn lemma_altered_link_invalid(blocks: Seq<BlockView>, d: nat, i: int, p: Seq<u8>)
    requires
        chain_valid(blocks, d),
        1 <= i < blocks.len(),
        p != blocks[i].previous_hash,
    ensures
        !chain_valid(blocks.update(i, BlockView { previous_hash: p, ..blocks[i] }), d),
{
    let c = blocks.update(i, BlockView { previous_hash: p, ..blocks[i] });
    assert(link_ok(blocks[i - 1], blocks[i], d));
    assert(!link_ok(c[i - 1], c[i], d));
}

/// A block after the first whose nonce or record is altered, its stored
/// hash kept, leaves the chain valid only if its recomputed hash is
/// unchanged, that is, only through a SHA-256 collision.
pub proof fn lemma_altered_contents_need_same_hash(
    blocks: Seq<BlockView>,
    d: nat,
    i: int,
    b: BlockView,
)
    requires
        chain_valid(blocks, d),
        1 <= i < blocks.len(),
        b.hash == blocks[i].hash,
    ensures
        chain_valid(blocks.update(i, b), d) ==> recomputed_hash(b) == recomputed_hash(blocks[i]),
{
    let c = blocks.update(i, b);
    assert(link_ok(blocks[i - 1], blocks[i], d));
    if chain_valid(c, d) {
        assert(link_ok(c[i - 1], c[i], d));
    }
}

/// An append-only sequence of blocks that starts with a genesis block.
#[derive(Debug, Clone)]
pub struct BlockChain {
    pub blocks: Vec<Block>,
    pub difficulty: usize,
}

impl BlockChain {
    /// The blocks, seen as values.
    pub open spec fn blocks_view(&self) -> Seq<BlockView> {
        self.blocks@.map_values(|b: Block| b@)
    }

    /// A ledger always holds its genesis block.
    pub open spec fn wf(&self) -> bool {
        self.blocks@.len() >= 1
    }

    /// A ledger at the default difficulty, holding its mined genesis block.
    pub fn new() -> (r: Result<BlockChain, MiningError>)
        ensures
            r is Err ==> r == Err::<BlockChain, MiningError>(MiningError::Exhausted),
            r is Err ==> exists|b: BlockView|
                #[trigger] Self::unsealable_genesis(b, DEFAULT_DIFFICULTY as nat),
            r is Ok ==> Self::is_fresh(r->Ok_0, DEFAULT_DIFFICULTY as nat),
    {
        Self::with_difficulty(DEFAULT_DIFFICULTY)
    }

    /// `c` is a new ledger of difficulty `d`: one sealed genesis block.
    pub open spec fn is_fresh(c: BlockChain, d: nat) -> bool {
        &&& c.wf()
        &&& c.difficulty == d
        &&& c.blocks_view().len() == 1
        &&& c.blocks_view()[0].previous_hash == genesis_sentinel()
        &&& c.blocks_view()[0].record == genesis_record()
        &&& c.blocks_view()[0].checksum == hex_of(sha512_of(canonical_bytes(genesis_record())))
        &&& is_sealed(c.blocks_view()[0], d)
        &&& chain_valid(c.blocks_view(), d)
    }

    /// A ledger whose blocks are mined at `difficulty`, holding its mined
    /// genesis block.
    pub fn with_difficulty(difficulty: usize) -> (r: Result<BlockChain, MiningError>)
        ensures
            r is Err ==> r == Err::<BlockChain, MiningError>(MiningError::Exhausted),
            r is Err ==> exists|b: BlockView| #[trigger] Self::unsealable_genesis(b, difficulty as nat),
            r is Ok ==> Self::is_fresh(r->Ok_0, difficulty as nat),
            difficulty == 0 ==> r is Ok,
    {
        let genesis = match Self::genesis(difficulty) {
            Ok(b) => b,
            Err(e) => return Err(e),
        };
        let mut blocks: Vec<Block> = Vec::new();
        blocks.push(genesis);
        let c = BlockChain { blocks, difficulty };
        assert(c.blocks_view()[0] == genesis@);
        Ok(c)
    }

    /// `b` is a genesis block that mining cannot seal at difficulty `d`.
    pub open spec fn unsealable_genesis(b: BlockView, d: nat) -> bool {
        &&& b.record == genesis_record()
        &&& b.previous_hash == genesis_sentinel()
        &&& unsealable(b, d)
    }

    fn genesis(difficulty: usize) -> (r: Result<Block, MiningError>)
        ensures
            r is Err ==> r == Err::<Block, MiningError>(MiningError::Exhausted),
            r is Ok ==> r->Ok_0@.previous_hash == genesis_sentinel(),
            r is Ok ==> r->Ok_0@.record == genesis_record(),
            r is Ok ==> r->Ok_0@.checksum == hex_of(sha512_of(canonical_bytes(genesis_record()))),
            r is Err ==> exists|b: BlockView| #[trigger] Self::unsealable_genesis(b, difficulty as nat),
            r is Ok ==> is_sealed(r->Ok_0@, difficulty as nat),
            difficulty == 0 ==> r is Ok,
    {
        let sentinel: Vec<u8> = vec![95u8, 95, 71, 69, 78, 69, 83, 73, 83];
        assert(sentinel@ =~= genesis_sentinel());
        let mut b = Block::new(NodeData::empty(), sentinel);
        let ghost drawn = b@;
        match b.mine_block(difficulty) {
            Ok(()) => Ok(b),
            Err(e) => {
                assert(Self::unsealable_genesis(drawn, difficulty as nat));
                Err(e)
            },
        }
    }

    /// Mines a block holding `data`, linked to the last block, and appends
    /// it. On error the ledger is unchanged.
    pub fn add_block(&mut self, data: NodeData) -> (r: Result<(), MiningError>)
        requires
            old(self).wf(),
        ensures
            final(self).wf(),
            final(self).difficulty == old(self).difficulty,
            r is Err ==> final(self).blocks_view() == old(self).blocks_view() && r == Err::<
                (),
                MiningError,
            >(MiningError::Exhausted),
            r is Ok ==> {
                let v = final(self).blocks_view();
                let n = old(self).blocks_view().len();
                &&& v.len() == n + 1
                &&& v.take(n as int) == old(self).blocks_view()
                &&& v[n as int].record == data@
                &&& v[n as int].checksum == hex_of(sha512_of(canonical_bytes(data@)))
                &&& v[n as int].previous_hash == old(self).blocks_view()[n - 1].hash
                &&& is_sealed(v[n as int], old(self).difficulty as nat)
            },
            r is Err ==> exists|b: BlockView|
                #[trigger] unsealable(b, old(self).difficulty as nat) && b.record == data@
                    && b.previous_hash == old(self).blocks_view().last().hash,
            old(self).difficulty == 0 ==> r is Ok,
            chain_valid(old(self).blocks_view(), old(self).difficulty as nat) ==> chain_valid(
                final(self).blocks_view(),
                final(self).difficulty as nat,
            ),
    {
        let last = self.blocks.len() - 1;
        let previous_hash = copy_bytes(self.blocks[last].hash.as_slice());
        let mut block = Block::new(data, previous_hash);
        let ghost drawn = block@;
        assert(self.blocks_view().last() == self.blocks[last as int]@);
        match block.mine_block(self.difficulty) {
            Ok(()) => {
                let ghost before = self.blocks_view();
                self.blocks.push(block);
                proof {
                    assert(self.blocks_view() =~= before.push(block@));
                    assert(self.blocks_view().take(before.len() as int) =~= before);
                    if chain_valid(before, self.difficulty as nat) {
                        lemma_append_keeps_valid(before, block@, self.difficulty as nat);
                    }
                }
                Ok(())
            },
            Err(e) => {
                assert(unsealable(drawn, self.difficulty as nat));
                Err(e)
            },
        }
    }

    /// Walks the chain after the genesis block, recomputing each hash, and
    /// checks it against the stored hash, the predecessor's hash and the
    /// difficulty.
    pub fn is_valid(&self) -> (r: bool)
        ensures
            r == chain_valid(self.blocks_view(), self.difficulty as nat),
    {
        let ghost v = self.blocks_view();
        let mut i: usize = 1;
        while i < self.blocks.len()
            invariant
                1 <= i,
                v == self.blocks_view(),
                forall|j: int| 1 <= j < i && j < v.len() ==> #[trigger] link_ok(v[j - 1], v[j], self.difficulty as nat),
            decreases self.blocks@.len() - i,
        {
            let current = &self.blocks[i];
            let previous = &self.blocks[i - 1];
            assert(v[i as int] == current@ && v[i - 1] == previous@);
            let recalculated = Block::calculate_hash(
                current.id,
                current.timestamp,
                &current.node,
                current.previous_hash.as_slice(),
                current.nonce,
            );
            if !bytes_eq(current.hash.as_slice(), recalculated.as_slice()) {
                assert(!link_ok(v[i - 1], v[i as int], self.difficulty as nat));
                return false;
            }
            if !bytes_eq(current.previous_hash.as_slice(), previous.hash.as_slice()) {
                assert(!link_ok(v[i - 1], v[i as int], self.difficulty as nat));
                return false;
            }
            if !has_leading_zeros(current.hash.as_slice(), self.difficulty) {
                assert(!link_ok(v[i - 1], v[i as int], self.difficulty as nat));
                return false;
            }
            i = i + 1;
        }
        true
    }

    /// The number of blocks, genesis included.
    pub fn len(&self) -> (r: usize)
        ensures
            r == self.blocks_view().len(),
    {
        self.blocks.len()
    }
}

} // verus!
