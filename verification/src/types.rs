//! The ledger's core data types: transactions, transaction info records,
//! events, write sets and ledger infos.
//!
//! Each executable type has a mathematical view (a mirror with `Seq` fields)
//! that the contracts speak of, and a canonical length-prefixed byte
//! encoding from which its domain-tagged hash is computed.

use vstd::prelude::*;
use crate::hash::{HashValue, clone_bytes, tagged_hash, tagged_hash_of, TAG_TRANSACTION, TAG_TRANSACTION_INFO, TAG_EVENT};
use crate::state_store_key::{AccountAddress, ResourceKey, ResourceValue};

verus! {

/// A version: the index of a committed transaction.
pub type Version = u64;

/// Labels a pre-seeded state that precedes version 0.
pub const PRE_GENESIS_VERSION: u64 = 0xffff_ffff_ffff_ffff;

/// The big-endian bytes of a 64-bit integer.
pub open spec fn be64(x: u64) -> Seq<u8> {
    seq![
        (x >> 56) as u8,
        (x >> 48) as u8,
        (x >> 40) as u8,
        (x >> 32) as u8,
        (x >> 24) as u8,
        (x >> 16) as u8,
        (x >> 8) as u8,
        x as u8,
    ]
}

/// Appends the big-endian bytes of `x` to `buf`.
pub fn push_u64_be(buf: &mut Vec<u8>, x: u64)
    ensures
        final(buf)@ == old(buf)@ + be64(x),
{
    buf.push((x >> 56) as u8);
    buf.push((x >> 48) as u8);
    buf.push((x >> 40) as u8);
    buf.push((x >> 32) as u8);
    buf.push((x >> 24) as u8);
    buf.push((x >> 16) as u8);
    buf.push((x >> 8) as u8);
    buf.push(x as u8);
    proof {
        assert(buf@ =~= old(buf)@ + be64(x));
    }
}

/// A length-prefixed byte field: the length as eight big-endian bytes,
/// then the bytes themselves.
pub open spec fn enc_bytes(b: Seq<u8>) -> Seq<u8> {
    be64(b.len() as u64) + b
}

/// Appends a length-prefixed byte field to `buf`.
pub fn push_bytes_field(buf: &mut Vec<u8>, b: &Vec<u8>)
    ensures
        final(buf)@ == old(buf)@ + enc_bytes(b@),
{
    let ghost pre = buf@;
    push_u64_be(buf, b.len() as u64);
    buf.extend_from_slice(b.as_slice());
    proof {
        assert(buf@ =~= pre + enc_bytes(b@));
    }
}

/// The key under which an event stream is indexed.
#[derive(Debug)]
pub struct EventKey {
    pub bytes: Vec<u8>,
}

impl View for EventKey {
    type V = Seq<u8>;

    open spec fn view(&self) -> Seq<u8> {
        self.bytes@
    }
}

impl Clone for EventKey {
    fn clone(&self) -> (r: Self)
        ensures
            r@ == self@,
    {
        EventKey { bytes: clone_bytes(&self.bytes) }
    }
}

impl EventKey {
    /// Byte-wise equality of two event keys.
    pub fn equals(&self, other: &EventKey) -> (r: bool)
        ensures
            r <==> self@ == other@,
    {
        let r = self.bytes == other.bytes;
        proof {
            if self@ =~= other@ {
                assert(self@ == other@);
            }
        }
        r
    }
}

/// The mathematical view of a contract event.
pub struct ContractEventV {
    pub key: Seq<u8>,
    pub sequence_number: u64,
    pub type_tag: Seq<u8>,
    pub event_data: Seq<u8>,
}

/// An event emitted by a transaction.
#[derive(Debug)]
pub struct ContractEvent {
    pub key: EventKey,
    pub sequence_number: u64,
    pub type_tag: Vec<u8>,
    pub event_data: Vec<u8>,
}

impl View for ContractEvent {
    type V = ContractEventV;

    open spec fn view(&self) -> ContractEventV {
        ContractEventV {
            key: self.key@,
            sequence_number: self.sequence_number,
            type_tag: self.type_tag@,
            event_data: self.event_data@,
        }
    }
}

impl Clone for ContractEvent {
    fn clone(&self) -> (r: Self)
        ensures
            r@ == self@,
    {
        ContractEvent {
            key: self.key.clone(),
            sequence_number: self.sequence_number,
            type_tag: clone_bytes(&self.type_tag),
            event_data: clone_bytes(&self.event_data),
        }
    }
}

/// The canonical encoding of an event.
pub open spec fn event_enc(e: ContractEventV) -> Seq<u8> {
    enc_bytes(e.key) + be64(e.sequence_number) + enc_bytes(e.type_tag) + enc_bytes(e.event_data)
}

/// The hash of an event, as it enters the per-version event accumulator.
pub open spec fn event_hash_of(e: ContractEventV) -> Seq<u8> {
    tagged_hash_of(TAG_EVENT, event_enc(e))
}

impl ContractEvent {
    /// Computes the hash of this event.
    pub fn hash(&self) -> (r: HashValue)
        ensures
            r@ == event_hash_of(self@),
            r.wf(),
    {
        let mut buf: Vec<u8> = Vec::new();
        push_bytes_field(&mut buf, &self.key.bytes);
        push_u64_be(&mut buf, self.sequence_number);
        push_bytes_field(&mut buf, &self.type_tag);
        push_bytes_field(&mut buf, &self.event_data);
        proof {
            assert(buf@ =~= event_enc(self@));
        }
        tagged_hash(TAG_EVENT, &buf)
    }
}

/// The mathematical view of a transaction.
pub enum TransactionV {
    UserTransaction { sender: Seq<u8>, sequence_number: u64, payload: Seq<u8> },
    BlockMetadata { id: Seq<u8>, timestamp_usecs: u64 },
    StateCheckpoint,
}

/// A committed transaction: a user transaction, a block-metadata marker
/// carrying the block's timestamp, or a state checkpoint (genesis included).
#[derive(Debug)]
pub enum Transaction {
    UserTransaction { sender: AccountAddress, sequence_number: u64, payload: Vec<u8> },
    BlockMetadata { id: HashValue, timestamp_usecs: u64 },
    StateCheckpoint,
}

impl View for Transaction {
    type V = TransactionV;

    open spec fn view(&self) -> TransactionV {
        match self {
            Transaction::UserTransaction { sender, sequence_number, payload } =>
                TransactionV::UserTransaction {
                    sender: sender@,
                    sequence_number: *sequence_number,
                    payload: payload@,
                },
            Transaction::BlockMetadata { id, timestamp_usecs } => TransactionV::BlockMetadata {
                id: id@,
                timestamp_usecs: *timestamp_usecs,
            },
            Transaction::StateCheckpoint => TransactionV::StateCheckpoint,
        }
    }
}

impl Clone for Transaction {
    fn clone(&self) -> (r: Self)
        ensures
            r@ == self@,
    {
        match self {
            Transaction::UserTransaction { sender, sequence_number, payload } =>
                Transaction::UserTransaction {
                    sender: sender.clone(),
                    sequence_number: *sequence_number,
                    payload: clone_bytes(payload),
                },
            Transaction::BlockMetadata { id, timestamp_usecs } => Transaction::BlockMetadata {
                id: id.clone(),
                timestamp_usecs: *timestamp_usecs,
            },
            Transaction::StateCheckpoint => Transaction::StateCheckpoint,
        }
    }
}

/// The canonical encoding of a transaction: a variant byte, then its
/// length-prefixed fields.
pub open spec fn transaction_enc(t: TransactionV) -> Seq<u8> {
    match t {
        TransactionV::UserTransaction { sender, sequence_number, payload } =>
            seq![0u8] + enc_bytes(sender) + be64(sequence_number) + enc_bytes(payload),
        TransactionV::BlockMetadata { id, timestamp_usecs } =>
            seq![1u8] + enc_bytes(id) + be64(timestamp_usecs),
        TransactionV::StateCheckpoint => seq![2u8],
    }
}

/// The hash of a transaction, as recorded by its transaction info.
pub open spec fn transaction_hash_of(t: TransactionV) -> Seq<u8> {
    tagged_hash_of(TAG_TRANSACTION, transaction_enc(t))
}

impl Transaction {
    /// Whether this transaction is a block-metadata marker.
    pub fn is_block_metadata(&self) -> (r: bool)
        ensures
            r <==> self@ is BlockMetadata,
    {
        match self {
            Transaction::BlockMetadata { .. } => true,
            _ => false,
        }
    }

    /// Computes the hash of this transaction.
    pub fn hash(&self) -> (r: HashValue)
        ensures
            r@ == transaction_hash_of(self@),
            r.wf(),
    {
        let mut buf: Vec<u8> = Vec::new();
        match self {
            Transaction::UserTransaction { sender, sequence_number, payload } => {
                buf.push(0);
                push_bytes_field(&mut buf, &sender.bytes);
                push_u64_be(&mut buf, *sequence_number);
                push_bytes_field(&mut buf, payload);
            },
            Transaction::BlockMetadata { id, timestamp_usecs } => {
                buf.push(1);
                push_bytes_field(&mut buf, &id.bytes);
                push_u64_be(&mut buf, *timestamp_usecs);
            },
            Transaction::StateCheckpoint => {
                buf.push(2);
            },
        }
        proof {
            assert(buf@ =~= transaction_enc(self@));
        }
        tagged_hash(TAG_TRANSACTION, &buf)
    }
}

/// The mathematical view of a transaction info record.
pub struct TransactionInfoV {
    pub transaction_hash: Seq<u8>,
    pub state_root_hash: Seq<u8>,
    pub event_root_hash: Seq<u8>,
    pub gas_used: u64,
    pub status: u64,
}

/// The per-version record whose hash is an accumulator leaf: the hashes of
/// the transaction, of the state root after it, and of its event
/// accumulator root, with the gas it used and its status code.
#[derive(Debug)]
pub struct TransactionInfo {
    pub transaction_hash: HashValue,
    pub state_root_hash: HashValue,
    pub event_root_hash: HashValue,
    pub gas_used: u64,
    pub status: u64,
}

impl View for TransactionInfo {
    type V = TransactionInfoV;

    open spec fn view(&self) -> TransactionInfoV {
        TransactionInfoV {
            transaction_hash: self.transaction_hash@,
            state_root_hash: self.state_root_hash@,
            event_root_hash: self.event_root_hash@,
            gas_used: self.gas_used,
            status: self.status,
        }
    }
}

impl Clone for TransactionInfo {
    fn clone(&self) -> (r: Self)
        ensures
            r@ == self@,
    {
        TransactionInfo {
            transaction_hash: self.transaction_hash.clone(),
            state_root_hash: self.state_root_hash.clone(),
            event_root_hash: self.event_root_hash.clone(),
            gas_used: self.gas_used,
            status: self.status,
        }
    }
}

/// The canonical encoding of a transaction info record.
pub open spec fn transaction_info_enc(t: TransactionInfoV) -> Seq<u8> {
    enc_bytes(t.transaction_hash) + enc_bytes(t.state_root_hash) + enc_bytes(t.event_root_hash)
        + be64(t.gas_used) + be64(t.status)
}

/// The hash of a transaction info record: the accumulator leaf at its
/// version.
pub open spec fn transaction_info_hash_of(t: TransactionInfoV) -> Seq<u8> {
    tagged_hash_of(TAG_TRANSACTION_INFO, transaction_info_enc(t))
}

impl TransactionInfo {
    /// Computes the hash of this record: the ledger accumulator leaf at its
    /// version.
    pub fn hash(&self) -> (r: HashValue)
        ensures
            r@ == transaction_info_hash_of(self@),
            r.wf(),
    {
        let mut buf: Vec<u8> = Vec::new();
        push_bytes_field(&mut buf, &self.transaction_hash.bytes);
        push_bytes_field(&mut buf, &self.state_root_hash.bytes);
        push_bytes_field(&mut buf, &self.event_root_hash.bytes);
        push_u64_be(&mut buf, self.gas_used);
        push_u64_be(&mut buf, self.status);
        proof {
            assert(buf@ =~= transaction_info_enc(self@));
        }
        tagged_hash(TAG_TRANSACTION_INFO, &buf)
    }
}

/// The mathematical view of a write operation.
pub enum WriteOpV {
    Deletion,
    Value(Seq<u8>),
}

/// One write of a transaction: delete a cell or set its bytes.
#[derive(Debug)]
pub enum WriteOp {
    Deletion,
    Value(ResourceValue),
}

impl View for WriteOp {
    type V = WriteOpV;

    open spec fn view(&self) -> WriteOpV {
        match self {
            WriteOp::Deletion => WriteOpV::Deletion,
            WriteOp::Value(v) => WriteOpV::Value(v@),
        }
    }
}

impl Clone for WriteOp {
    fn clone(&self) -> (r: Self)
        ensures
            r@ == self@,
    {
        match self {
            WriteOp::Deletion => WriteOp::Deletion,
            WriteOp::Value(v) => WriteOp::Value(v.clone()),
        }
    }
}

/// The mathematical view of a write set: raw key bytes paired with ops.
pub type WriteSetV = Seq<(Seq<u8>, WriteOpV)>;

/// The ordered list of writes a transaction performed.
#[derive(Debug)]
pub struct WriteSet {
    pub ops: Vec<(ResourceKey, WriteOp)>,
}

impl View for WriteSet {
    type V = WriteSetV;

    open spec fn view(&self) -> WriteSetV {
        self.ops@.map_values(|p: (ResourceKey, WriteOp)| (p.0@, p.1@))
    }
}

impl Clone for WriteSet {
    fn clone(&self) -> (r: Self)
        ensures
            r@ == self@,
    {
        let mut ops: Vec<(ResourceKey, WriteOp)> = Vec::new();
        let mut i: usize = 0;
        while i < self.ops.len()
            invariant
                i <= self.ops@.len(),
                ops@.len() == i,
                forall|j: int| 0 <= j < i
                    ==> (#[trigger] ops@[j]).0@ == self.ops@[j].0@ && ops@[j].1@ == self.ops@[j].1@,
            decreases self.ops@.len() - i,
        {
            let entry = &self.ops[i];
            ops.push((entry.0.clone(), entry.1.clone()));
            i = i + 1;
        }
        let r = WriteSet { ops };
        proof {
            assert(r@ =~= self@);
        }
        r
    }
}

/// The mathematical view of a ledger info.
pub struct LedgerInfoV {
    pub epoch: u64,
    pub version: u64,
    pub transaction_accumulator_hash: Seq<u8>,
    pub timestamp_usecs: u64,
    pub next_epoch_state: Option<Seq<u8>>,
}

impl LedgerInfoV {
    /// Whether this ledger info closes its epoch.
    pub open spec fn ends_epoch(self) -> bool {
        self.next_epoch_state is Some
    }

    /// The epoch of the block after this ledger info.
    pub open spec fn next_block_epoch(self) -> int {
        if self.ends_epoch() {
            self.epoch + 1
        } else {
            self.epoch as int
        }
    }
}

/// A consensus attestation binding a version to the accumulator root at
/// that version, with the epoch, a timestamp and, when the epoch ends, the
/// next validator set (carried as opaque bytes).
#[derive(Debug)]
pub struct LedgerInfo {
    pub epoch: u64,
    pub version: u64,
    pub transaction_accumulator_hash: HashValue,
    pub timestamp_usecs: u64,
    pub next_epoch_state: Option<Vec<u8>>,
}

impl View for LedgerInfo {
    type V = LedgerInfoV;

    open spec fn view(&self) -> LedgerInfoV {
        LedgerInfoV {
            epoch: self.epoch,
            version: self.version,
            transaction_accumulator_hash: self.transaction_accumulator_hash@,
            timestamp_usecs: self.timestamp_usecs,
            next_epoch_state: match self.next_epoch_state {
                Some(ref s) => Some(s@),
                None => None,
            },
        }
    }
}

impl Clone for LedgerInfo {
    fn clone(&self) -> (r: Self)
        ensures
            r@ == self@,
    {
        LedgerInfo {
            epoch: self.epoch,
            version: self.version,
            transaction_accumulator_hash: self.transaction_accumulator_hash.clone(),
            timestamp_usecs: self.timestamp_usecs,
            next_epoch_state: match &self.next_epoch_state {
                Some(s) => Some(clone_bytes(s)),
                None => None,
            },
        }
    }
}

impl LedgerInfo {
    /// Whether this ledger info closes its epoch.
    pub fn ends_epoch(&self) -> (r: bool)
        ensures
            r == self@.ends_epoch(),
    {
        self.next_epoch_state.is_some()
    }

    /// The epoch of the block after this ledger info.
    pub fn next_block_epoch(&self) -> (r: u64)
        requires
            self.epoch < 0xffff_ffff_ffff_ffff,
        ensures
            r == self@.next_block_epoch(),
    {
        if self.next_epoch_state.is_some() {
            self.epoch + 1
        } else {
            self.epoch
        }
    }
}

/// A ledger info together with the signatures consensus gathered for it.
/// The signatures are opaque to the storage layer.
#[derive(Debug)]
pub struct LedgerInfoWithSignatures {
    pub ledger_info: LedgerInfo,
    pub signatures: Vec<(AccountAddress, Vec<u8>)>,
}

impl View for LedgerInfoWithSignatures {
    type V = LedgerInfoV;

    open spec fn view(&self) -> LedgerInfoV {
        self.ledger_info@
    }
}

impl Clone for LedgerInfoWithSignatures {
    fn clone(&self) -> (r: Self)
        ensures
            r@ == self@,
    {
        let mut signatures: Vec<(AccountAddress, Vec<u8>)> = Vec::new();
        let mut i: usize = 0;
        while i < self.signatures.len()
            decreases self.signatures@.len() - i,
        {
            let entry = &self.signatures[i];
            signatures.push((entry.0.clone(), clone_bytes(&entry.1)));
            i = i + 1;
        }
        LedgerInfoWithSignatures { ledger_info: self.ledger_info.clone(), signatures }
    }
}

/// The mathematical view of a transaction to commit.
pub struct TransactionToCommitV {
    pub transaction: TransactionV,
    pub transaction_info: TransactionInfoV,
    pub account_states: Seq<(Seq<u8>, Seq<u8>)>,
    pub write_set: WriteSetV,
    pub events: Seq<ContractEventV>,
}

/// Everything one committed transaction writes: the transaction itself,
/// its transaction info record, the state cells it sets (key and value),
/// its write set and the events it emitted.
#[derive(Debug)]
pub struct TransactionToCommit {
    pub transaction: Transaction,
    pub transaction_info: TransactionInfo,
    pub account_states: Vec<(ResourceKey, ResourceValue)>,
    pub write_set: WriteSet,
    pub events: Vec<ContractEvent>,
}

/// The views of a sequence of transactions.
pub open spec fn txn_views(s: Seq<Transaction>) -> Seq<TransactionV> {
    s.map_values(|t: Transaction| t@)
}

/// The views of a sequence of transaction info records.
pub open spec fn info_views(s: Seq<TransactionInfo>) -> Seq<TransactionInfoV> {
    s.map_values(|t: TransactionInfo| t@)
}

/// The views of a sequence of events.
pub open spec fn event_views(s: Seq<ContractEvent>) -> Seq<ContractEventV> {
    s.map_values(|e: ContractEvent| e@)
}

/// The views of per-version event lists.
pub open spec fn events_views(s: Seq<Vec<ContractEvent>>) -> Seq<Seq<ContractEventV>> {
    s.map_values(|v: Vec<ContractEvent>| event_views(v@))
}

/// The views of a sequence of write sets.
pub open spec fn write_set_views(s: Seq<WriteSet>) -> Seq<WriteSetV> {
    s.map_values(|w: WriteSet| w@)
}

/// The views of a sequence of signed ledger infos.
pub open spec fn lis_views(s: Seq<LedgerInfoWithSignatures>) -> Seq<LedgerInfoV> {
    s.map_values(|l: LedgerInfoWithSignatures| l@)
}

/// The views of a sequence of transactions to commit.
pub open spec fn ttc_views(s: Seq<TransactionToCommit>) -> Seq<TransactionToCommitV> {
    s.map_values(|t: TransactionToCommit| t@)
}

impl View for TransactionToCommit {
    type V = TransactionToCommitV;

    open spec fn view(&self) -> TransactionToCommitV {
        TransactionToCommitV {
            transaction: self.transaction@,
            transaction_info: self.transaction_info@,
            account_states: self.account_states@.map_values(
                |p: (ResourceKey, ResourceValue)| (p.0@, p.1@),
            ),
            write_set: self.write_set@,
            events: self.events@.map_values(|e: ContractEvent| e@),
        }
    }
}

} // verus!
