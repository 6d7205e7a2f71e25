//! Unit checks on the Merkle structures and the byte codecs.

use aptosdb::accumulator::{accumulator_gen_proof, accumulator_root};
use aptosdb::account_state::{AccountState, decode_account_state, encode_account_state};
use aptosdb::hash::{tagged_hash, HashValue, TAG_ACCUMULATOR_INTERNAL};
use aptosdb::sparse_merkle::SparseMerkleTree;
use aptosdb::state_store_key::{AccountAddress, RawStateStoreKey, ResourceKey, ResourceValue, StateStoreKey};
use aptosdb::types::{Transaction, TransactionInfo, TransactionToCommit};
use aptosdb::AptosDB;

fn leaf(b: u8) -> HashValue {
    tagged_hash(0, &vec![b])
}

#[test]
fn accumulator_proofs_verify() {
    let leaves = vec![leaf(1), leaf(2), leaf(3), leaf(4), leaf(5)];
    let root = accumulator_root(TAG_ACCUMULATOR_INTERNAL, &leaves, 5);
    for i in 0..5usize {
        let pf = accumulator_gen_proof(TAG_ACCUMULATOR_INTERNAL, &leaves, 5, i);
        assert!(pf.verify(TAG_ACCUMULATOR_INTERNAL, &root, &leaves[i], i as u64));
        // The proof refuses the wrong index and the wrong leaf.
        assert!(!pf.verify(TAG_ACCUMULATOR_INTERNAL, &root, &leaves[i], (i as u64 + 1) % 5));
        assert!(!pf.verify(TAG_ACCUMULATOR_INTERNAL, &root, &leaf(99), i as u64));
    }
    // Roots at different sizes differ.
    let root4 = accumulator_root(TAG_ACCUMULATOR_INTERNAL, &leaves, 4);
    assert_ne!(root.bytes, root4.bytes);
}

#[test]
fn sparse_merkle_inclusion_and_exclusion() {
    let mut tree = SparseMerkleTree::new();
    let k1 = ResourceKey::AccountAddressKey(AccountAddress { bytes: vec![1; 16] });
    let k2 = ResourceKey::AccountAddressKey(AccountAddress { bytes: vec![2; 16] });
    let absent = ResourceKey::AccountAddressKey(AccountAddress { bytes: vec![3; 16] });
    tree = tree.insert(&k1.hash(), ResourceValue { bytes: vec![10] });
    tree = tree.insert(&k2.hash(), ResourceValue { bytes: vec![20] });
    let root = tree.root_hash();

    let (v1, p1) = tree.get_with_proof(&k1.hash());
    assert_eq!(v1.as_ref().unwrap().bytes, vec![10]);
    assert!(p1.verify(&root, &k1.hash(), v1.as_ref()));
    // The proof is for this value only.
    assert!(!p1.verify(&root, &k1.hash(), Some(&ResourceValue { bytes: vec![11] })));

    let (v3, p3) = tree.get_with_proof(&absent.hash());
    assert!(v3.is_none());
    assert!(p3.verify(&root, &absent.hash(), None));

    // Overwriting a key changes the root and the served value.
    let tree2 = tree.clone().insert(&k1.hash(), ResourceValue { bytes: vec![12] });
    let root2 = tree2.root_hash();
    assert_ne!(root.bytes, root2.bytes);
    let (v1b, p1b) = tree2.get_with_proof(&k1.hash());
    assert_eq!(v1b.as_ref().unwrap().bytes, vec![12]);
    assert!(p1b.verify(&root2, &k1.hash(), v1b.as_ref()));
}

#[test]
fn account_state_codec_roundtrip() {
    let st = AccountState {
        entries: vec![
            (vec![1], vec![5, 6, 7]),
            (vec![2, 2], Vec::new()),
            (Vec::new(), vec![9]),
        ],
    };
    let bytes = encode_account_state(&st);
    let back = decode_account_state(&bytes).unwrap();
    assert_eq!(back.entries.len(), 3);
    assert_eq!(back.entries[0], (vec![1], vec![5, 6, 7]));
    assert_eq!(back.entries[1], (vec![2, 2], Vec::new()));
    assert_eq!(back.entries[2], (Vec::new(), vec![9]));
    assert_eq!(back.get(&vec![1]), Some(vec![5, 6, 7]));
    assert_eq!(back.get(&vec![3]), None);
    // Truncated bytes are refused.
    let mut cut = bytes.clone();
    cut.pop();
    assert!(decode_account_state(&cut).is_none());
    assert!(decode_account_state(&vec![1, 2, 3]).is_none());
}

#[test]
fn raw_state_store_key_prefix() {
    // The raw form of an account key is the fixed textual prefix followed
    // by the address bytes.
    let a = AccountAddress { bytes: vec![0xab; 16] };
    let raw = RawStateStoreKey::from(StateStoreKey::AccountStateKey(a));
    assert_eq!(&raw.0[..9], b"acc_blb_|");
    assert_eq!(raw.0.len(), 9 + 16);
    assert_eq!(raw.0[9], 0xab);
}

#[test]
fn key_hashing_is_tagged() {
    // Hashing goes through the digest: 32 bytes that are not the raw key
    // itself, and different keys hash differently.
    let k1 = ResourceKey::AccountAddressKey(AccountAddress { bytes: vec![1; 16] });
    let k2 = ResourceKey::AccountAddressKey(AccountAddress { bytes: vec![2; 16] });
    let h1 = k1.hash();
    let h2 = k2.hash();
    assert_eq!(h1.bytes.len(), 32);
    assert_ne!(h1.bytes, h2.bytes);
    assert_ne!(h1.bytes, k1.raw_bytes());
    // The same key hashes the same.
    assert_eq!(h1.bytes, k1.hash().bytes);
}

#[test]
fn version_ordering() {
    let a = aptosdb::on_chain_config::Version { major: 2 };
    let b = aptosdb::on_chain_config::Version { major: 3 };
    assert!(a < b);
    assert_eq!(a, aptosdb::on_chain_config::Version { major: 2 });
}

#[test]
fn state_chunk_and_snapshot_restore() {
    // Export a chunk of state leaves at a version, verify each against the
    // state root, then restore them through the snapshot receiver and
    // check the root matches.
    let mut db = AptosDB::new_for_test();
    let mut tree = SparseMerkleTree::new();
    let mut leaves = Vec::new();
    let mut states = Vec::new();
    for b in 0..4u8 {
        let k = ResourceKey::AccountAddressKey(AccountAddress { bytes: vec![b; 16] });
        states.push((k, ResourceValue { bytes: vec![b, b] }));
    }
    let mut t = std::mem::replace(&mut tree, SparseMerkleTree::new());
    for (k, v) in states.iter() {
        t = t.insert(&k.hash(), v.clone());
    }
    let state_root = t.root_hash();
    let txn = Transaction::StateCheckpoint;
    let info = TransactionInfo {
        transaction_hash: txn.hash(),
        state_root_hash: state_root,
        event_root_hash: aptosdb::event_store::EventStore::compute_event_root(&Vec::new()),
        gas_used: 0,
        status: 0,
    };
    let ttc = TransactionToCommit {
        transaction: txn,
        transaction_info: info,
        account_states: states,
        write_set: aptosdb::types::WriteSet { ops: Vec::new() },
        events: Vec::new(),
    };
    leaves.push(ttc.transaction_info.hash());
    let root = accumulator_root(TAG_ACCUMULATOR_INTERNAL, &leaves, 1);
    let li = aptosdb::types::LedgerInfoWithSignatures {
        ledger_info: aptosdb::types::LedgerInfo {
            epoch: 0,
            version: 0,
            transaction_accumulator_hash: root,
            timestamp_usecs: 0,
            next_epoch_state: None,
        },
        signatures: Vec::new(),
    };
    db.save_transactions(&vec![ttc], 0, Some(&li)).unwrap();

    let chunk = db.get_account_chunk_with_proof(0, 0, 4).unwrap();
    assert_eq!(chunk.raw_values.len(), 4);
    assert_eq!(chunk.first_index, 0);
    assert_eq!(chunk.last_index, 3);
    for (i, (kh, v)) in chunk.raw_values.iter().enumerate() {
        assert!(chunk.proof.proofs[i].verify(&chunk.root_hash, kh, Some(v)));
    }
    // A short chunk past the end is refused.
    assert!(db.get_account_chunk_with_proof(0, 3, 2).is_err());

    let mut receiver = db.get_state_snapshot_receiver(0, chunk.root_hash.clone());
    receiver.add_chunk(chunk.raw_values);
    let restored = receiver.finish().unwrap();
    assert_eq!(restored.root_hash().bytes, chunk.root_hash.bytes);

    // A receiver expecting a different root refuses to finish.
    let mut wrong = chunk.root_hash.clone();
    wrong.bytes[0] ^= 1;
    let mut receiver2 = db.get_state_snapshot_receiver(0, wrong);
    receiver2.add_chunk(Vec::new());
    assert!(receiver2.finish().is_err());
}

