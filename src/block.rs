//! Blocks: a record sealed by proof-of-work and linked to its predecessor.

use vstd::prelude::*;

use crate::digest::{bytes_eq, copy_bytes, decimal_bytes, decimal_of, hex_of, sha256, sha256_of, sha512_of, to_hex};
use crate::envelope::{canonical_bytes, now_millis, NodeData, RecordView};

verus! {

/// Relies on `uuid::Uuid::new_v4`: sixteen random bytes, with the version
/// nibble set to 4 and the variant bits to `10`.
#[verifier::external_body]
fn new_uuid_bytes() -> (r: [u8; 16])
    ensures
        r@[6] / 16 == 4,
        r@[8] / 64 == 2,
{
    uuid::Uuid::new_v4().into_bytes()
}

/// Why mining stopped without sealing the block.
#[derive(Debug, Clone, Copy, PartialEq, Eq, Structural)]
pub enum MiningError {
    /// No nonce in the whole `u64` range meets the difficulty.
    Exhausted,
}

/// A ledger entry: one record, the hash of the block before it, and the
/// nonce and hash that seal it.
#[derive(Debug, Clone)]
pub struct Block {
    pub id: [u8; 16],
    pub timestamp: u128,
    pub checksum: Vec<u8>,
    pub node: NodeData,
    pub previous_hash: Vec<u8>,
    pub nonce: u64,
    pub hash: Vec<u8>,
}

pub ghost struct BlockView {
    pub id: Seq<u8>,
    pub timestamp: u128,
    pub checksum: Seq<u8>,
    pub record: RecordView,
    pub previous_hash: Seq<u8>,
    pub nonce: u64,
    pub hash: Seq<u8>,
}

impl View for Block {
    type V = BlockView;

    open spec fn view(&self) -> BlockView {
        BlockView {
            id: self.id@,
            timestamp: self.timestamp,
            checksum: self.checksum@,
            record: self.node@,
            previous_hash: self.previous_hash@,
            nonce: self.nonce,
            hash: self.hash@,
        }
    }
}

/// The bytes a block hash is computed over: the id, the timestamp in
/// decimal, the record's canonical bytes, the previous hash and the nonce
/// in decimal.
pub open spec fn hash_input(
    id: Seq<u8>,
    timestamp: u128,
    record: RecordView,
    previous_hash: Seq<u8>,
    nonce: u64,
) -> Seq<u8> {
    id + decimal_of(timestamp as nat) + canonical_bytes(record) + previous_hash + decimal_of(
        nonce as nat,
    )
}

/// The hex SHA-256 digest of the hash input.
pub open spec fn block_hash(
    id: Seq<u8>,
    timestamp: u128,
    record: RecordView,
    previous_hash: Seq<u8>,
    nonce: u64,
) -> Seq<u8> {
    hex_of(sha256_of(hash_input(id, timestamp, record, previous_hash, nonce)))
}

/// The hash of block `b`'s fields with nonce `nonce`.
pub open spec fn hash_at(b: BlockView, nonce: u64) -> Seq<u8> {
    block_hash(b.id, b.timestamp, b.record, b.previous_hash, nonce)
}

/// The hash recomputed from a block's stored fields.
pub open spec fn recomputed_hash(b: BlockView) -> Seq<u8> {
    hash_at(b, b.nonce)
}

/// `h` starts with at least `d` ASCII zeros.
pub open spec fn meets_difficulty(h: Seq<u8>, d: nat) -> bool {
    d <= h.len() && forall|i: int| 0 <= i < d ==> h[i] == 48u8
}

/// The stored hash is the recomputed one and meets the difficulty.
pub open spec fn is_sealed(b: BlockView, d: nat) -> bool {
    b.hash == recomputed_hash(b) && meets_difficulty(b.hash, d)
}

/// Mining cannot seal `b` at difficulty `d`: it is not sealed, and no
/// nonce from one upward gives a hash with `d` leading zeros.
pub open spec fn unsealable(b: BlockView, d: nat) -> bool {
    &&& !is_sealed(b, d)
    &&& forall|n: u64| 1 <= n ==> !meets_difficulty(#[trigger] hash_at(b, n), d)
}

/// `a` and `b` agree on every field but the nonce and the hash.
pub open spec fn same_contents(a: BlockView, b: BlockView) -> bool {
    &&& a.id == b.id
    &&& a.timestamp == b.timestamp
    &&& a.checksum == b.checksum
    &&& a.record == b.record
    &&& a.previous_hash == b.previous_hash
}

/// Whether `h` starts with at least `d` ASCII zeros.
pub fn has_leading_zeros(h: &[u8], d: usize) -> (r: bool)
    ensures
        r == meets_difficulty(h@, d as nat),
{
    if d > h.len() {
        return false;
    }
    let mut i: usize = 0;
    while i < d
        invariant
            d <= h@.len(),
            i <= d,
            forall|j: int| 0 <= j < i ==> h@[j] == 48u8,
        decreases d - i,
    {
        if h[i] != 48u8 {
            return false;
        }
        i = i + 1;
    }
    true
}

impl Block {
    /// An unsealed block holding `node`, linked to `previous_hash`, with a
    /// fresh id and the current time.
    pub fn new(node: NodeData, previous_hash: Vec<u8>) -> (r: Block)
        ensures
            r@.record == node@,
            r@.previous_hash == previous_hash@,
            r@.checksum == hex_of(sha512_of(canonical_bytes(node@))),
            r@.nonce == 0,
            r@.hash.len() == 0,
            r@.id[6] / 16 == 4,
            r@.id[8] / 64 == 2,
    {
        let id = new_uuid_bytes();
        let timestamp = now_millis();
        Self::with_parts(node, previous_hash, id, timestamp)
    }

    /// An unsealed block with the given id and timestamp.
    pub fn with_parts(node: NodeData, previous_hash: Vec<u8>, id: [u8; 16], timestamp: u128) -> (r:
        Block)
        ensures
            r@.id == id@,
            r@.timestamp == timestamp,
            r@.record == node@,
            r@.previous_hash == previous_hash@,
            r@.checksum == hex_of(sha512_of(canonical_bytes(node@))),
            r@.nonce == 0,
            r@.hash.len() == 0,
    {
        let checksum = node.checksum();
        Block { id, timestamp, checksum, node, previous_hash, nonce: 0, hash: Vec::new() }
    }

    /// The block hash of the given fields.
    pub fn calculate_hash(
        id: [u8; 16],
        timestamp: u128,
        data: &NodeData,
        previous_hash: &[u8],
        nonce: u64,
    ) -> (r: Vec<u8>)
        ensures
            r@ == block_hash(id@, timestamp, data@, previous_hash@, nonce),
            r@.len() == 64,
    {
        let mut input = copy_bytes(id.as_slice());
        let mut part = decimal_bytes(timestamp);
        input.append(&mut part);
        let mut part = data.as_bytes();
        input.append(&mut part);
        let mut part = copy_bytes(previous_hash);
        input.append(&mut part);
        let mut part = decimal_bytes(nonce as u128);
        input.append(&mut part);
        assert(input@ =~= hash_input(id@, timestamp, data@, previous_hash@, nonce));
        let digest = sha256(input.as_slice());
        to_hex(digest.as_slice())
    }

    /// Whether the stored hash is the recomputed one and meets `difficulty`.
    pub fn is_sealed_at(&self, difficulty: usize) -> (r: bool)
        ensures
            r == is_sealed(self@, difficulty as nat),
    {
        let h = Self::calculate_hash(
            self.id,
            self.timestamp,
            &self.node,
            self.previous_hash.as_slice(),
            self.nonce,
        );
        bytes_eq(self.hash.as_slice(), h.as_slice()) && has_leading_zeros(
            self.hash.as_slice(),
            difficulty,
        )
    }

    /// Seals the block. A block already sealed at `difficulty` is left as
    /// it is; otherwise nonces are tried from one upward and the first whose
    /// hash has `difficulty` leading zeros is kept.
    pub fn mine_block(&mut self, difficulty: usize) -> (r: Result<(), MiningError>)
        ensures
            same_contents(final(self)@, old(self)@),
            is_sealed(old(self)@, difficulty as nat) ==> r is Ok && final(self)@ == old(self)@,
            !is_sealed(old(self)@, difficulty as nat) ==> (r is Ok <==> exists|n: u64|
                1 <= n && meets_difficulty(#[trigger] hash_at(old(self)@, n), difficulty as nat)),
            r is Ok ==> is_sealed(final(self)@, difficulty as nat),
            !is_sealed(old(self)@, difficulty as nat) && r is Ok ==> {
                &&& final(self).nonce >= 1
                &&& forall|n: u64|
                    1 <= n < final(self).nonce ==> !meets_difficulty(
                        #[trigger] hash_at(old(self)@, n),
                        difficulty as nat,
                    )
            },
            r is Err ==> final(self)@ == old(self)@ && r == Err::<(), MiningError>(
                MiningError::Exhausted,
            ),
            r is Err ==> unsealable(old(self)@, difficulty as nat),
            difficulty == 0 ==> r is Ok,
            difficulty == 0 && !is_sealed(old(self)@, 0) ==> final(self).nonce == 1,
    {
        if self.is_sealed_at(difficulty) {
            return Ok(());
        }
        let mut nonce: u64 = 1;
        loop
            invariant
                1 <= nonce,
                self@ == old(self)@,
                !is_sealed(old(self)@, difficulty as nat),
                forall|n: u64|
                    1 <= n < nonce ==> !meets_difficulty(
                        #[trigger] hash_at(old(self)@, n),
                        difficulty as nat,
                    ),
            decreases u64::MAX - nonce,
        {
            let h = Self::calculate_hash(
                self.id,
                self.timestamp,
                &self.node,
                self.previous_hash.as_slice(),
                nonce,
            );
            assert(h@ == hash_at(old(self)@, nonce));
            if has_leading_zeros(h.as_slice(), difficulty) {
                proof {
                    if difficulty == 0 && nonce > 1 {
                        assert(meets_difficulty(hash_at(old(self)@, 1), 0));
                    }
                }
                self.nonce = nonce;
                self.hash = h;
                return Ok(());
            }
            if nonce == u64::MAX {
                assert forall|n: u64|
                    1 <= n implies !meets_difficulty(
                    #[trigger] hash_at(old(self)@, n),
                    difficulty as nat,
                ) by {
                    if n == nonce {
                    }
                }
                return Err(MiningError::Exhausted);
            }
            nonce = nonce + 1;
        }
    }
}

} // verus!
