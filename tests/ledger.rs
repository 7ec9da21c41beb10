use gnosisdb::block::{has_leading_zeros, Block};
use gnosisdb::chain::BlockChain;
use gnosisdb::digest::{bytes_eq, decimal_bytes, to_hex, u64_le_bytes};
use gnosisdb::envelope::{CryptoError, NodeData};

const MASTER: [u8; 32] = [7u8; 32];

fn leading_zeros(h: &[u8], d: usize) -> bool {
    h.len() >= d && h[..d].iter().all(|c| *c == b'0')
}

#[test]
fn scenario_difficulty_one_append_and_decrypt() {
    let mut chain = BlockChain::with_difficulty(1).unwrap();
    let record = NodeData::new(1, b"abc".to_vec(), &MASTER).unwrap();
    chain.add_block(record).unwrap();
    assert_eq!(chain.len(), 2);
    assert!(chain.is_valid());
    let plain = chain.blocks[1].node.decrypt_data(&MASTER).unwrap();
    assert_eq!(plain, b"abc".to_vec());
}

#[test]
fn genesis_invariant() {
    let chain = BlockChain::new().unwrap();
    assert_eq!(chain.len(), 1);
    assert_eq!(chain.difficulty, 3);
    let genesis = &chain.blocks[0];
    assert_eq!(genesis.previous_hash, b"__GENESIS".to_vec());
    assert_eq!(genesis.node.data, b"GnosisDB Genesis Block".to_vec());
    assert_eq!(genesis.node.identifier, 0);
    assert!(genesis.node.dek_refs.is_empty());
    assert!(leading_zeros(&genesis.hash, 3));
    assert_eq!(genesis.hash.len(), 64);
    assert!(chain.is_valid());
}

#[test]
fn valid_after_every_append() {
    let mut chain = BlockChain::with_difficulty(2).unwrap();
    assert!(chain.is_valid());
    for i in 0..4u64 {
        let record = NodeData::new(i, vec![i as u8; 10], &MASTER).unwrap();
        chain.add_block(record).unwrap();
        assert!(chain.is_valid());
    }
    assert_eq!(chain.len(), 5);
    for i in 1..chain.len() {
        assert_eq!(chain.blocks[i].previous_hash, chain.blocks[i - 1].hash);
    }
}

fn two_block_chain() -> BlockChain {
    let mut chain = BlockChain::with_difficulty(1).unwrap();
    chain.add_block(NodeData::new(1, b"first".to_vec(), &MASTER).unwrap()).unwrap();
    chain.add_block(NodeData::new(2, b"second".to_vec(), &MASTER).unwrap()).unwrap();
    chain
}

#[test]
fn altered_hash_is_detected() {
    let mut chain = two_block_chain();
    chain.blocks[1].hash[5] ^= 1;
    assert!(!chain.is_valid());
}

#[test]
fn altered_previous_hash_is_detected() {
    let mut chain = two_block_chain();
    chain.blocks[2].previous_hash.push(b'0');
    assert!(!chain.is_valid());
}

#[test]
fn altered_nonce_is_detected() {
    let mut chain = two_block_chain();
    chain.blocks[1].nonce += 1;
    assert!(!chain.is_valid());
}

#[test]
fn flipped_ciphertext_bit_is_detected() {
    let chain = two_block_chain();
    for byte in [0usize, 3] {
        for bit in 0..8 {
            let mut tampered = chain.clone();
            tampered.blocks[2].node.data[byte] ^= 1 << bit;
            assert!(!tampered.is_valid());
        }
    }
}

#[test]
fn mined_hash_meets_difficulty() {
    for d in 0..4usize {
        let record = NodeData::new(9, b"payload".to_vec(), &MASTER).unwrap();
        let mut block = Block::new(record, b"prev".to_vec());
        block.mine_block(d).unwrap();
        assert!(leading_zeros(&block.hash, d));
        assert!(block.nonce >= 1);
        assert!(block.is_sealed_at(d));
        for n in 1..block.nonce {
            let h = Block::calculate_hash(block.id, block.timestamp, &block.node, &block.previous_hash, n);
            assert!(!leading_zeros(&h, d));
        }
        let again = Block::calculate_hash(block.id, block.timestamp, &block.node, &block.previous_hash, block.nonce);
        assert_eq!(again, block.hash);
    }
}

#[test]
fn difficulty_zero_mines_on_first_attempt() {
    let mut block = Block::new(NodeData::empty(), b"x".to_vec());
    assert_eq!(block.mine_block(0), Ok(()));
    assert_eq!(block.nonce, 1);
    assert_eq!(block.hash.len(), 64);
    let mut chain = BlockChain::with_difficulty(0).unwrap();
    chain.add_block(NodeData::empty()).unwrap();
    assert!(chain.is_valid());
    assert_eq!(chain.blocks[1].nonce, 1);
}

#[test]
fn envelope_round_trip() {
    for plain in [Vec::new(), b"x".to_vec(), vec![0xAB; 1000]] {
        let record = NodeData::new(3, plain.clone(), &MASTER).unwrap();
        assert_eq!(record.identifier, 3);
        assert_eq!(record.dek_refs.len(), 1);
        assert_eq!(record.dek_refs[0].version, 1);
        assert_eq!(record.data.len(), plain.len() + 16);
        assert_eq!(record.decrypt_data(&MASTER), Ok(plain));
    }
}

#[test]
fn seal_with_fixed_keys_round_trip() {
    let dek = [1u8; 32];
    let record = NodeData::seal_with(5, b"hello world", &MASTER, &dek, &[2u8; 12], &[3u8; 12], 99).unwrap();
    assert_ne!(record.data[..11].to_vec(), b"hello world".to_vec());
    assert_ne!(record.dek_refs[0].encrypted_dek[..32].to_vec(), dek.to_vec());
    assert_eq!(record.nonce, [2u8; 12]);
    assert_eq!(record.dek_refs[0].nonce, [3u8; 12]);
    assert_eq!(record.dek_refs[0].created_at, 99);
    let same = NodeData::seal_with(5, b"hello world", &MASTER, &dek, &[2u8; 12], &[3u8; 12], 99).unwrap();
    assert_eq!(same.data, record.data);
    assert_eq!(record.decrypt_data(&MASTER), Ok(b"hello world".to_vec()));
}

#[test]
fn wrong_key_is_rejected() {
    let record = NodeData::new(1, b"secret".to_vec(), &MASTER).unwrap();
    let other = [8u8; 32];
    assert_eq!(record.decrypt_data(&other), Err(CryptoError::Authentication));
}

#[test]
fn altered_ciphertext_fails_to_open() {
    let mut record = NodeData::new(1, b"secret".to_vec(), &MASTER).unwrap();
    record.data[0] ^= 0x80;
    assert_eq!(record.decrypt_data(&MASTER), Err(CryptoError::Authentication));
}

#[test]
fn genesis_record_has_no_key() {
    assert_eq!(NodeData::empty().decrypt_data(&MASTER), Err(CryptoError::MissingKey));
}

#[test]
fn canonical_bytes_and_checksum() {
    let record = NodeData::empty();
    let mut expected = vec![0u8; 8];
    expected.extend_from_slice(b"GnosisDB Genesis Block");
    assert_eq!(record.as_bytes(), expected);
    assert_eq!(
        record.checksum(),
        b"7d16c5d2175c0783ae408f2d13e0929194507648f05666b377f037d20fc0397c0d1a9e0ffbe461e23372c97fb0d30e39e9f59a159fc7aeae6779d685f86f60a5".to_vec()
    );
    let block = Block::new(NodeData::empty(), b"p".to_vec());
    assert_eq!(block.checksum, record.checksum());
    assert_eq!(block.nonce, 0);
    assert!(block.hash.is_empty());
}

#[test]
fn block_hash_exact_value() {
    let id: [u8; 16] = core::array::from_fn(|i| i as u8);
    let h = Block::calculate_hash(id, 1700000000000, &NodeData::empty(), b"__GENESIS", 42);
    assert_eq!(h, b"f55fa1f53d7999dd0df6a62a824e8b2f68510aa2354a59aac59b41eb70dbf725".to_vec());
    let b = Block::with_parts(NodeData::empty(), b"__GENESIS".to_vec(), id, 1700000000000);
    assert_eq!(b.id, id);
    assert_eq!(b.timestamp, 1700000000000);
}

#[test]
fn encodings() {
    assert_eq!(to_hex(&[0x00, 0x0f, 0xa5, 0xff]), b"000fa5ff".to_vec());
    assert_eq!(to_hex(&[]), Vec::<u8>::new());
    assert_eq!(decimal_bytes(0), b"0".to_vec());
    assert_eq!(decimal_bytes(1234567890), b"1234567890".to_vec());
    assert_eq!(decimal_bytes(u128::MAX), u128::MAX.to_string().into_bytes());
    assert_eq!(u64_le_bytes(0x0102030405060708), vec![8, 7, 6, 5, 4, 3, 2, 1]);
    assert!(bytes_eq(b"abc", b"abc"));
    assert!(!bytes_eq(b"abc", b"abd"));
    assert!(!bytes_eq(b"abc", b"ab"));
    assert!(has_leading_zeros(b"00a", 2));
    assert!(!has_leading_zeros(b"0a0", 2));
    assert!(!has_leading_zeros(b"0", 2));
    assert!(has_leading_zeros(b"", 0));
}

#[test]
fn block_ids_are_version_four() {
    let a = Block::new(NodeData::empty(), Vec::new());
    let b = Block::new(NodeData::empty(), Vec::new());
    assert_ne!(a.id, b.id);
    assert_eq!(a.id[6] >> 4, 4);
    assert_eq!(a.id[8] >> 6, 2);
}

#[test]
fn mining_a_sealed_block_changes_nothing() {
    let mut block = Block::new(NodeData::empty(), b"prev".to_vec());
    block.mine_block(3).unwrap();
    let nonce = block.nonce;
    let hash = block.hash.clone();
    assert_eq!(block.mine_block(1), Ok(()));
    assert_eq!(block.nonce, nonce);
    assert_eq!(block.hash, hash);
    assert_eq!(block.mine_block(3), Ok(()));
    assert_eq!(block.nonce, nonce);
}

#[test]
fn appended_block_carries_record_checksum() {
    let mut chain = BlockChain::with_difficulty(1).unwrap();
    assert_eq!(chain.blocks[0].checksum, NodeData::empty().checksum());
    let record = NodeData::new(4, b"data".to_vec(), &MASTER).unwrap();
    let expected = record.checksum();
    assert_eq!(expected.len(), 128);
    chain.add_block(record).unwrap();
    assert_eq!(chain.blocks[1].checksum, expected);
    assert_eq!(chain.blocks[1].hash.len(), 64);
}
