//! End-to-end scenarios over the ledger store: commits, authenticated
//! reads, event paging, epoch paging and the speculative view.

use aptosdb::AptosDB;
use aptosdb::accumulator::accumulator_root;
use aptosdb::hash::{HashValue, TAG_ACCUMULATOR_INTERNAL};
use aptosdb::errors::{AptosDbError, Order};
use aptosdb::event_store::EventStore;
use aptosdb::sparse_merkle::SparseMerkleTree;
use aptosdb::state_store_key::{AccountAddress, ResourceKey, ResourceValue};
use aptosdb::state_view::{
    AccessPath, AccountStatus, MockDbReaderWriter, SpeculativeTree, VerifiedStateView,
};
use aptosdb::types::{
    ContractEvent, EventKey, LedgerInfo, LedgerInfoWithSignatures, Transaction, TransactionInfo,
    TransactionToCommit, WriteSet,
};

fn addr(b: u8) -> AccountAddress {
    AccountAddress { bytes: vec![b; 16] }
}

fn event_key(b: u8) -> EventKey {
    EventKey { bytes: vec![b; 24] }
}

fn user_txn(sender: AccountAddress, seq: u64) -> Transaction {
    Transaction::UserTransaction {
        sender,
        sequence_number: seq,
        payload: vec![7, 7, 7],
    }
}

fn event(key: &EventKey, seq: u64) -> ContractEvent {
    ContractEvent {
        key: key.clone(),
        sequence_number: seq,
        type_tag: vec![1],
        event_data: vec![seq as u8],
    }
}

/// Builds one `TransactionToCommit`, computing the hashes its transaction
/// info must carry from the state tree as it stands before this version.
fn make_txn_to_commit(
    tree: &mut SparseMerkleTree,
    txn: Transaction,
    states: Vec<(ResourceKey, ResourceValue)>,
    events: Vec<ContractEvent>,
) -> TransactionToCommit {
    let mut t = std::mem::replace(tree, SparseMerkleTree::new());
    for (k, v) in states.iter() {
        t = t.insert(&k.hash(), v.clone());
    }
    let state_root = t.root_hash();
    *tree = t;
    let event_root = EventStore::compute_event_root(&events);
    let info = TransactionInfo {
        transaction_hash: txn.hash(),
        state_root_hash: state_root,
        event_root_hash: event_root,
        gas_used: 0,
        status: 0,
    };
    TransactionToCommit {
        transaction: txn,
        transaction_info: info,
        account_states: states,
        write_set: WriteSet { ops: Vec::new() },
        events,
    }
}

/// The ledger root over the accumulated info hashes.
fn ledger_root(leaves: &Vec<HashValue>) -> HashValue {
    accumulator_root(TAG_ACCUMULATOR_INTERNAL, leaves, leaves.len())
}

fn ledger_info_for(
    leaves: &Vec<HashValue>,
    epoch: u64,
    version: u64,
    ends_epoch: bool,
) -> LedgerInfoWithSignatures {
    LedgerInfoWithSignatures {
        ledger_info: LedgerInfo {
            epoch,
            version,
            transaction_accumulator_hash: ledger_root(leaves),
            timestamp_usecs: 10,
            next_epoch_state: if ends_epoch { Some(vec![1]) } else { None },
        },
        signatures: Vec::new(),
    }
}

/// Commits `txns` at the next version, tracking accumulator leaves, and
/// optionally carries a ledger info at `epoch`.
fn commit(
    db: &mut AptosDB,
    leaves: &mut Vec<HashValue>,
    txns: Vec<TransactionToCommit>,
    li: Option<(u64, bool)>,
) -> Result<(), AptosDbError> {
    let first_version = leaves.len() as u64;
    for t in txns.iter() {
        leaves.push(t.transaction_info.hash());
    }
    let li = li.map(|(epoch, ends)| {
        ledger_info_for(leaves, epoch, (leaves.len() - 1) as u64, ends)
    });
    let r = db.save_transactions(&txns, first_version, li.as_ref());
    if r.is_err() {
        for _ in txns.iter() {
            leaves.pop();
        }
    }
    r
}

#[test]
fn empty_commit_with_ledger_info() {
    // Commit three transactions, then an empty batch carrying a ledger
    // info whose version is first_version - 1: the info is accepted and
    // becomes the latest, and a read past the tip returns the empty list.
    let mut db = AptosDB::new_for_test();
    let mut leaves = Vec::new();
    let mut tree = SparseMerkleTree::new();
    let t0 = make_txn_to_commit(&mut tree, user_txn(addr(1), 0), Vec::new(), Vec::new());
    commit(&mut db, &mut leaves, vec![t0], None).unwrap();
    commit(&mut db, &mut leaves, Vec::new(), Some((0, false))).unwrap();
    let li = db.get_latest_ledger_info().unwrap();
    assert_eq!(li.ledger_info.version, 0);
    let list = db.get_transactions(1, 1, 0, false).unwrap();
    assert_eq!(list.transactions.len(), 0);
    assert!(list.first_transaction_version.is_none());
}

#[test]
fn transfer_batch_roundtrip() {
    // Commit three user transactions with state writes and a matching
    // ledger info; the account index finds version 0, and the value read
    // at version 2 verifies against the ledger info.
    let mut db = AptosDB::new_for_test();
    let mut leaves = Vec::new();
    let mut tree = SparseMerkleTree::new();
    let sender = addr(9);
    let key = ResourceKey::AccountAddressKey(sender.clone());
    let mut txns = Vec::new();
    for seq in 0..3u64 {
        let states = vec![(key.clone(), ResourceValue { bytes: vec![seq as u8, 42] })];
        txns.push(make_txn_to_commit(
            &mut tree,
            user_txn(sender.clone(), seq),
            states,
            Vec::new(),
        ));
    }
    commit(&mut db, &mut leaves, txns, Some((0, false))).unwrap();

    let found = db.get_account_transaction(&sender, 0, false, 2).unwrap();
    assert_eq!(found.unwrap().version, 0);

    let with_proof = db.get_value_with_proof(&key, 2, 2).unwrap();
    let li = db.get_latest_ledger_info().unwrap();
    assert!(with_proof.verify(&li.ledger_info, 2, key.clone()).is_ok());
    assert_eq!(with_proof.value.as_ref().unwrap().bytes, vec![2, 42]);

    // The same proof refuses a different version.
    assert!(with_proof.verify(&li.ledger_info, 1, key.clone()).is_err());
}

#[test]
fn mismatched_root_rejected() {
    // A ledger info whose accumulator root differs by one bit is refused
    // as corruption, and nothing is committed.
    let mut db = AptosDB::new_for_test();
    let mut tree = SparseMerkleTree::new();
    let t0 = make_txn_to_commit(&mut tree, user_txn(addr(1), 0), Vec::new(), Vec::new());
    let leaf = t0.transaction_info.hash();
    let leaves = vec![leaf];
    let mut li = ledger_info_for(&leaves, 0, 0, false);
    li.ledger_info.transaction_accumulator_hash.bytes[0] ^= 1;
    let r = db.save_transactions(&vec![t0], 0, Some(&li));
    assert_eq!(r, Err(AptosDbError::Corruption));
    assert!(db.get_latest_ledger_info().is_err());
    assert!(db.get_transaction_by_version(0, 0, false).is_err());
}

#[test]
fn descending_event_queries() {
    // Three events under one key.  Reading from the newest descending
    // returns them newest first; a cursor past the tip returns nothing.
    let mut db = AptosDB::new_for_test();
    let mut leaves = Vec::new();
    let mut tree = SparseMerkleTree::new();
    let key = event_key(5);
    let mut txns = Vec::new();
    for seq in 0..3u64 {
        txns.push(make_txn_to_commit(
            &mut tree,
            user_txn(addr(1), seq),
            Vec::new(),
            vec![event(&key, seq)],
        ));
    }
    commit(&mut db, &mut leaves, txns, Some((0, false))).unwrap();

    let latest = db.get_events_with_proof_by_event_key(&key, u64::MAX, Order::Descending, 10, 2)
        .unwrap();
    assert_eq!(latest.len(), 3);
    assert_eq!(latest[0].event.sequence_number, 2);
    assert_eq!(latest[1].event.sequence_number, 1);
    assert_eq!(latest[2].event.sequence_number, 0);

    let past_tip = db.get_events_with_proof_by_event_key(&key, 100, Order::Descending, 10, 2)
        .unwrap();
    assert_eq!(past_tip.len(), 0);

    let ascending = db.get_events(&key, 1, Order::Ascending, 10).unwrap();
    assert_eq!(ascending.len(), 2);
    assert_eq!(ascending[0].0, 1);
}

#[test]
fn speculative_overlay_serves_scratch_pad() {
    // When the overlay already holds an account's blob, the view answers
    // from it and no proof enters the proof cache.
    let account = addr(3);
    let key = ResourceKey::AccountAddressKey(account.clone());
    let blob = {
        let st = aptosdb::account_state::AccountState {
            entries: vec![(vec![1, 2], vec![9, 9])],
        };
        ResourceValue { bytes: aptosdb::account_state::encode_account_state(&st) }
    };
    let mut overlay = SpeculativeTree::new();
    overlay.put(key.hash(), AccountStatus::ExistsInScratchPad(blob));
    let placeholder = aptosdb::hash::placeholder(aptosdb::hash::TAG_SPARSE_MERKLE_PLACEHOLDER);
    let mut view = VerifiedStateView::new(7, MockDbReaderWriter, None, placeholder, overlay);
    assert_eq!(view.id(), 7);
    assert!(view.is_genesis());

    let path = AccessPath { address: account, path: vec![1, 2] };
    let got = view.get(&path).unwrap();
    assert_eq!(got, Some(vec![9, 9]));

    // Reading twice returns the same bytes and inserts nothing more.
    let again = view.get(&path).unwrap();
    assert_eq!(again, Some(vec![9, 9]));
    let (cache, _reader) = view.into_state_cache();
    assert_eq!(cache.proofs.len(), 0);
    assert_eq!(cache.accounts.len(), 1);
}

#[test]
fn epoch_paging() {
    // 250 epoch-ending ledger infos page at 100 with a continuation flag.
    let mut db = AptosDB::new_for_test();
    let mut leaves = Vec::new();
    let mut tree = SparseMerkleTree::new();
    for e in 0..250u64 {
        let t = make_txn_to_commit(&mut tree, Transaction::StateCheckpoint, Vec::new(), Vec::new());
        commit(&mut db, &mut leaves, vec![t], Some((e, true))).unwrap();
    }
    let (page1, more1) = db.get_epoch_ending_ledger_infos(0, 250).unwrap();
    assert_eq!(page1.len(), 100);
    assert!(more1);
    for (k, li) in page1.iter().enumerate() {
        assert_eq!(li.ledger_info.epoch, k as u64);
        assert!(li.ledger_info.next_epoch_state.is_some());
    }
    let (page2, more2) = db.get_epoch_ending_ledger_infos(100, 250).unwrap();
    assert_eq!(page2.len(), 100);
    assert!(more2);
    let (page3, more3) = db.get_epoch_ending_ledger_infos(200, 250).unwrap();
    assert_eq!(page3.len(), 50);
    assert!(!more3);
    assert_eq!(page3[0].ledger_info.epoch, 200);
}

#[test]
fn order_limit_helper() {
    // The range helper: ascending keeps the cursor; descending covers the
    // limit ending at the cursor, clamped at zero; a zero limit is
    // refused.
    assert_eq!(get_helper(Order::Ascending, 7, 3), Ok((7, 3)));
    assert_eq!(get_helper(Order::Descending, 7, 3), Ok((5, 3)));
    assert_eq!(get_helper(Order::Descending, 2, 10), Ok((0, 3)));
    assert_eq!(get_helper(Order::Descending, 0, 1), Ok((0, 1)));
    assert_eq!(get_helper(Order::Ascending, 7, 0), Err(AptosDbError::BadRange));
}

fn get_helper(order: Order, cursor: u64, limit: u64) -> Result<(u64, u64), AptosDbError> {
    aptosdb::get_first_seq_num_and_limit(order, cursor, limit)
}

#[test]
fn consistency_proof_verifies() {
    // The consistency proof from an earlier version to the tip verifies
    // against the roots at both versions.
    let mut db = AptosDB::new_for_test();
    let mut leaves = Vec::new();
    let mut tree = SparseMerkleTree::new();
    for seq in 0..5u64 {
        let t = make_txn_to_commit(&mut tree, user_txn(addr(2), seq), Vec::new(), Vec::new());
        commit(&mut db, &mut leaves, vec![t], None).unwrap();
    }
    commit(&mut db, &mut leaves, Vec::new(), Some((0, false))).unwrap();
    let proof = db.get_accumulator_consistency_proof(Some(1), 4).unwrap();
    let root_1 = db.get_accumulator_root_hash(1).unwrap();
    let root_4 = db.get_accumulator_root_hash(4).unwrap();
    assert!(proof.verify(TAG_ACCUMULATOR_INTERNAL, &root_1, 2, &root_4, 5));
    // Tampering with a leaf hash breaks it.
    let mut bad = proof;
    bad.leaf_hashes[0].bytes[0] ^= 1;
    assert!(!bad.verify(TAG_ACCUMULATOR_INTERNAL, &root_1, 2, &root_4, 5));
}

#[test]
fn pruner_keeps_window() {
    // After commits and a prune, versions inside the retention window
    // stay readable and versions below it are refused.
    let config = aptosdb::StoragePrunerConfig {
        state_store_prune_window: Some(2),
        default_prune_window: Some(2),
    };
    let mut db = AptosDB::open(false, config).unwrap();
    let mut leaves = Vec::new();
    let mut tree = SparseMerkleTree::new();
    for seq in 0..6u64 {
        let t = make_txn_to_commit(&mut tree, user_txn(addr(4), seq), Vec::new(), Vec::new());
        commit(&mut db, &mut leaves, vec![t], None).unwrap();
    }
    commit(&mut db, &mut leaves, Vec::new(), Some((0, false))).unwrap();
    db.prune();
    // target is 5, window 2: versions 3..=5 stay readable.
    assert!(db.get_transaction_by_version(5, 5, false).is_ok());
    assert!(db.get_transaction_by_version(3, 5, false).is_ok());
    assert_eq!(
        db.get_transaction_by_version(2, 5, false).err(),
        Some(AptosDbError::NotFound)
    );
    // A read-only store refuses a pruning configuration.
    assert!(AptosDB::open(
        true,
        aptosdb::StoragePrunerConfig {
            state_store_prune_window: Some(1),
            default_prune_window: None,
        }
    )
    .is_err());
}

#[test]
fn block_timestamps() {
    // The block timestamp of a version is the timestamp of the last
    // block-metadata marker at or before it; genesis reads zero.
    let mut db = AptosDB::new_for_test();
    let mut leaves = Vec::new();
    let mut tree = SparseMerkleTree::new();
    let t0 = make_txn_to_commit(&mut tree, Transaction::StateCheckpoint, Vec::new(), Vec::new());
    let meta = Transaction::BlockMetadata {
        id: aptosdb::hash::tagged_hash(0, &vec![1]),
        timestamp_usecs: 77,
    };
    let t1 = make_txn_to_commit(&mut tree, meta, Vec::new(), Vec::new());
    let t2 = make_txn_to_commit(&mut tree, user_txn(addr(8), 0), Vec::new(), Vec::new());
    commit(&mut db, &mut leaves, vec![t0, t1, t2], Some((0, false))).unwrap();
    assert_eq!(db.get_block_timestamp(0).unwrap(), 0);
    assert_eq!(db.get_block_timestamp(1).unwrap(), 77);
    assert_eq!(db.get_block_timestamp(2).unwrap(), 77);
    assert_eq!(db.get_last_version_before_timestamp(100, 2).unwrap(), 2);
    assert_eq!(
        db.get_last_version_before_timestamp(0, 2).err(),
        Some(AptosDbError::NotFound)
    );
}

#[test]
fn too_many_requested() {
    let mut db = AptosDB::new_for_test();
    let mut leaves = Vec::new();
    let mut tree = SparseMerkleTree::new();
    let t = make_txn_to_commit(&mut tree, user_txn(addr(1), 0), Vec::new(), Vec::new());
    commit(&mut db, &mut leaves, vec![t], Some((0, false))).unwrap();
    let r = db.get_transactions(0, 5001, 0, false);
    assert_eq!(r.err(), Some(AptosDbError::TooManyRequested(5001, 5000)));
    let r2 = db.get_epoch_ending_ledger_infos(3, 1);
    assert_eq!(r2.err(), Some(AptosDbError::BadRange));
    assert_eq!(AptosDbError::BadRange.name(), "bad range");
    assert_eq!(AptosDbError::TooManyRequested(9, 5).name(), "too many requested");
}

#[test]
fn contiguity_enforced() {
    // A batch that does not start at the next version is refused, and a
    // batch with neither transactions nor a ledger info is refused.
    let mut db = AptosDB::new_for_test();
    let mut tree = SparseMerkleTree::new();
    let t = make_txn_to_commit(&mut tree, user_txn(addr(1), 0), Vec::new(), Vec::new());
    assert_eq!(
        db.save_transactions(&vec![t], 5, None).err(),
        Some(AptosDbError::BadRange)
    );
    assert_eq!(
        db.save_transactions(&Vec::new(), 0, None).err(),
        Some(AptosDbError::BadRange)
    );
}

#[test]
fn mock_reader_serves_blob() {
    let mock = MockDbReaderWriter;
    let key = ResourceKey::AccountAddressKey(addr(1));
    let got = mock.get_latest_value(&key).unwrap();
    let blob = got.unwrap();
    // The blob is a well-formed account state holding one 16-byte value.
    let st = aptosdb::account_state::decode_account_state(&blob.bytes).unwrap();
    assert_eq!(st.entries.len(), 1);
    assert_eq!(st.entries[0].1.len(), 16);
}

#[test]
fn state_proof_and_resource_reads() {
    // A client at version 0 catching up to the latest ledger info gets a
    // consistency proof that verifies between the two roots, and resource
    // reads decode the stored blob.
    let mut db = AptosDB::new_for_test();
    let mut leaves = Vec::new();
    let mut tree = SparseMerkleTree::new();
    let owner = addr(6);
    let key = ResourceKey::AccountAddressKey(owner.clone());
    let blob = {
        let st = aptosdb::account_state::AccountState {
            entries: vec![(vec![4, 4], vec![8, 8, 8])],
        };
        ResourceValue { bytes: aptosdb::account_state::encode_account_state(&st) }
    };
    let mut txns = Vec::new();
    for seq in 0..3u64 {
        let states = vec![(key.clone(), blob.clone())];
        txns.push(make_txn_to_commit(
            &mut tree,
            user_txn(owner.clone(), seq),
            states,
            Vec::new(),
        ));
    }
    commit(&mut db, &mut leaves, txns, Some((0, false))).unwrap();

    let sp = db.get_state_proof(0).unwrap();
    assert!(!sp.epoch_changes.more);
    assert_eq!(sp.epoch_changes.ledger_info_with_sigs.len(), 0);
    let root_0 = db.get_accumulator_root_hash(0).unwrap();
    let root_2 = db.get_accumulator_root_hash(2).unwrap();
    assert!(sp.consistency_proof.verify(TAG_ACCUMULATOR_INTERNAL, &root_0, 1, &root_2, 3));

    let got = db.get_resource(&owner, &vec![4, 4]).unwrap();
    assert_eq!(got, Some(vec![8, 8, 8]));
    assert_eq!(db.get_resource(&owner, &vec![9]).unwrap(), None);
    assert_eq!(db.get_module(&owner, &vec![4, 4]).unwrap(), Some(vec![8, 8, 8]));
    // An unknown account holds nothing.
    assert_eq!(db.get_resource(&addr(7), &vec![4, 4]).unwrap(), None);
}

#[test]
fn ascending_event_window() {
    // An ascending window starting inside the stream returns exactly the
    // requested run, in order.
    let mut db = AptosDB::new_for_test();
    let mut leaves = Vec::new();
    let mut tree = SparseMerkleTree::new();
    let key = event_key(9);
    let mut txns = Vec::new();
    for seq in 0..5u64 {
        txns.push(make_txn_to_commit(
            &mut tree,
            user_txn(addr(2), seq),
            Vec::new(),
            vec![event(&key, seq)],
        ));
    }
    commit(&mut db, &mut leaves, txns, Some((0, false))).unwrap();
    let got = db.get_events(&key, 1, Order::Ascending, 3).unwrap();
    assert_eq!(got.len(), 3);
    assert_eq!(got[0].1.sequence_number, 1);
    assert_eq!(got[1].1.sequence_number, 2);
    assert_eq!(got[2].1.sequence_number, 3);
    assert_eq!(got[0].0, 1);
}
