use nullchain::block::Block;
use nullchain::codec::{decode_block, decode_output, encode_block, encode_output};
use nullchain::hash::{bytes_to_hex, hex_to_bytes, Hash256};
use nullchain::merkle::MerkleTree;
use nullchain::transaction::{Transaction, TransactionInput, TransactionOutput};
use nullchain::utxo::OutPoint;

#[test]
fn test_genesis_block() {
    let genesis = Block::genesis();

    assert_eq!(genesis.header.version, 1);
    assert_eq!(genesis.header.previous_block, Hash256::zero());
    assert_eq!(genesis.transactions.len(), 1);
    assert!(genesis.transactions[0].is_coinbase());
}

#[test]
fn test_block_hash() {
    let genesis = Block::genesis();
    let hash1 = genesis.hash();
    let hash2 = genesis.hash();

    // Hashing should be deterministic
    assert_eq!(hash1, hash2);
    assert_ne!(hash1, Hash256::zero());
}

#[test]
fn test_merkle_root_calculation() {
    let mut genesis = Block::genesis();
    let merkle_root = genesis.calculate_merkle_root();

    assert_ne!(merkle_root, Hash256::zero());

    // Set the merkle root
    genesis.header.merkle_root = merkle_root;
    assert_eq!(genesis.header.merkle_root, merkle_root);
}

#[test]
fn test_header_serialization() {
    let genesis = Block::genesis();
    let serialized = genesis.header.serialize();

    // Should be deterministic
    assert!(!serialized.is_empty());
    assert_eq!(serialized, genesis.header.serialize());
}

#[test]
fn test_easy_difficulty() {
    let mut block = Block::genesis();
    // Very easy: just need first byte < 0x10
    block.header.bits = 0x1f0fffff;

    // Should find quickly
    for nonce in 0..100000 {
        block.header.nonce = nonce;
        if block.meets_difficulty_target() {
            println!("Found at nonce: {}", nonce);
            return;
        }
    }
    panic!("Should have found a block");
}

#[test]
fn test_hash_display() {
    let hash = Hash256::from_bytes([1u8; 32]);
    let display = hash.to_hex();
    assert_eq!(display.len(), 64); // 32 bytes * 2 hex chars
    assert!(display.chars().all(|c| c.is_ascii_hexdigit()));
}

#[test]
fn test_zero_hash() {
    let zero = Hash256::zero();
    assert_eq!(zero.as_bytes(), &[0u8; 32]);
}

#[test]
fn test_empty_tree() {
    let tree = MerkleTree::new(vec![]);
    assert_eq!(tree.root(), Hash256::zero());
    assert!(tree.is_empty());
}

#[test]
fn test_single_leaf() {
    let leaf = Hash256::from_bytes([1u8; 32]);
    let tree = MerkleTree::new(vec![leaf]);
    assert_eq!(tree.root(), leaf);
    assert_eq!(tree.len(), 1);
}

#[test]
fn test_two_leaves() {
    let leaf1 = Hash256::from_bytes([1u8; 32]);
    let leaf2 = Hash256::from_bytes([2u8; 32]);
    let tree = MerkleTree::new(vec![leaf1, leaf2]);

    // Root should be hash of both leaves
    assert_ne!(tree.root(), Hash256::zero());
    assert_eq!(tree.len(), 2);
}

#[test]
fn test_deterministic() {
    let leaves = vec![
        Hash256::from_bytes([1u8; 32]),
        Hash256::from_bytes([2u8; 32]),
        Hash256::from_bytes([3u8; 32]),
    ];

    let tree1 = MerkleTree::new(leaves.clone());
    let tree2 = MerkleTree::new(leaves);

    assert_eq!(tree1.root(), tree2.root());
}

#[test]
fn test_coinbase_transaction() {
    let recipient = vec![0u8; 20]; // Dummy address
    let tx = Transaction::coinbase(recipient, 100_000_000_000, 0);

    assert!(tx.is_coinbase());
    assert_eq!(tx.inputs.len(), 1);
    assert_eq!(tx.outputs.len(), 1);
    assert_eq!(tx.outputs[0].amount, 100_000_000_000);
}

#[test]
fn test_two_leaf_root_is_pair_hash() {
    let leaf1 = Hash256::from_bytes([1u8; 32]);
    let leaf2 = Hash256::from_bytes([2u8; 32]);
    let tree = MerkleTree::new(vec![leaf1, leaf2]);

    let mut concat = Vec::new();
    concat.extend_from_slice(leaf1.as_bytes());
    concat.extend_from_slice(leaf2.as_bytes());
    let expected = blake3::hash(&concat);
    assert_eq!(tree.root().as_bytes(), expected.as_bytes());
}

#[test]
fn test_three_leaf_root_formula() {
    let a = Hash256::from_bytes([1u8; 32]);
    let b = Hash256::from_bytes([2u8; 32]);
    let c = Hash256::from_bytes([3u8; 32]);
    let tree = MerkleTree::new(vec![a, b, c]);

    let pair = |x: &Hash256, y: &Hash256| {
        let mut concat = Vec::new();
        concat.extend_from_slice(x.as_bytes());
        concat.extend_from_slice(y.as_bytes());
        Hash256::from_bytes(*blake3::hash(&concat).as_bytes())
    };
    let expected = pair(&pair(&a, &b), &pair(&c, &c));
    assert_eq!(tree.root(), expected);
}

#[test]
fn test_block_codec_round_trip() {
    let mut block = Block::genesis();
    block.header.merkle_root = block.calculate_merkle_root();
    block.transactions.push(Transaction {
        version: 1,
        inputs: vec![TransactionInput {
            previous_output: Hash256::from_bytes([7u8; 32]),
            output_index: 3,
            signature: vec![9u8; 64],
            public_key: vec![5u8; 32],
        }],
        outputs: vec![TransactionOutput { amount: 42, recipient: vec![1u8; 20] }],
        locktime: 99,
    });

    let blob = encode_block(&block);
    let decoded = decode_block(&blob).expect("round trip must succeed");
    assert_eq!(decoded.hash(), block.hash());
    assert_eq!(decoded.header.nonce, block.header.nonce);
    assert_eq!(decoded.transactions.len(), block.transactions.len());
    assert_eq!(decoded.transactions[1].outputs[0].amount, 42);
    assert_eq!(decoded.transactions[1].inputs[0].output_index, 3);
}

#[test]
fn test_block_codec_rejects_malformed() {
    let block = Block::genesis();
    let blob = encode_block(&block);

    // Truncated blob
    assert!(decode_block(&blob[..blob.len() - 1]).is_none());
    // Trailing byte
    let mut extended = blob.clone();
    extended.push(0);
    assert!(decode_block(&extended).is_none());
    // Empty blob
    assert!(decode_block(&[]).is_none());
}

#[test]
fn test_output_codec_round_trip() {
    let output = TransactionOutput { amount: 1234, recipient: vec![8u8; 20] };
    let blob = encode_output(&output);
    let decoded = decode_output(&blob).expect("round trip must succeed");
    assert_eq!(decoded.amount, 1234);
    assert_eq!(decoded.recipient, vec![8u8; 20]);
    assert!(decode_output(&blob[..blob.len() - 1]).is_none());
}

#[test]
fn test_outpoint_key_round_trip() {
    let outpoint = OutPoint { txid: Hash256::from_bytes([6u8; 32]), index: 0x01020304 };
    let key = outpoint.to_key();
    assert_eq!(key.len(), 36);
    assert_eq!(&key[32..], &[1, 2, 3, 4]);

    let recovered = OutPoint::from_key(&key).expect("36-byte key must parse");
    assert_eq!(recovered.txid, outpoint.txid);
    assert_eq!(recovered.index, outpoint.index);

    assert!(OutPoint::from_key(&key[..35]).is_none());
}

#[test]
fn test_bits_to_target_layout() {
    let target = Block::bits_to_target(0x1d00ffff);
    let mut expected = [0xffu8; 32];
    // exponent 0x1d: mantissa bytes sit at offsets 26..29 counted from the
    // low end, everything above them is zero.
    expected[26] = 0x00;
    expected[27] = 0xff;
    expected[28] = 0xff;
    expected[29] = 0x00;
    expected[30] = 0x00;
    expected[31] = 0x00;
    assert_eq!(target.as_bytes(), &expected);
}

#[test]
fn test_hex_text_round_trip() {
    let hash = Hash256::from_bytes([0xabu8; 32]);
    assert_eq!(hash.to_hex(), "ab".repeat(32));

    assert_eq!(bytes_to_hex(&[0x01, 0x9f]), "019f");
    assert_eq!(hex_to_bytes("019f"), Some(vec![0x01, 0x9f]));
    assert_eq!(hex_to_bytes("019F"), Some(vec![0x01, 0x9f]));
    assert_eq!(hex_to_bytes("019"), None);
    assert_eq!(hex_to_bytes("01zz"), None);
}
