//! The speculative verified state view: the read API the virtual machine
//! uses over a still-uncommitted state.  Every value it returns is either
//! found in the speculative overlay or fetched from persistent storage and
//! verified against the pinned persistent state root; resolved accounts
//! and proofs are cached, and a cached account is never re-resolved.

use vstd::prelude::*;
use crate::hash::{HashValue, placeholder, placeholder_of, TAG_SPARSE_MERKLE_PLACEHOLDER};
use crate::sparse_merkle::SparseMerkleProof;
use crate::state_store_key::{
    AccountAddress, ResourceKey, ResourceValue, resource_key_hash_of, account_address_key_prefix,
};
use crate::account_state::{AccountState, decode_account_state, find_path, account_state_enc};
use crate::errors::AptosDbError;
use crate::types::PRE_GENESIS_VERSION;

verus! {

/// What the speculative overlay knows of one account.
#[derive(Debug)]
pub enum AccountStatus {
    /// The overlay holds the account's current blob.
    ExistsInScratchPad(ResourceValue),
    /// The overlay knows the account holds nothing.
    DoesNotExist,
    /// The account exists in persistent storage, but only its hash is at
    /// hand.
    ExistsInDB,
    /// The overlay knows nothing of the account.
    Unknown,
}

/// The frozen speculative sparse Merkle overlay: for each key hash it may
/// hold what the pending write sets say.
#[derive(Debug)]
pub struct SpeculativeTree {
    pub entries: Vec<(HashValue, AccountStatus)>,
}

/// The overlay's answer for a key hash, first entry winning; an unlisted
/// key is unknown.
pub open spec fn spec_overlay_status(s: Seq<(HashValue, AccountStatus)>, kh: Seq<u8>) -> Option<int>
    decreases s.len(),
{
    if s.len() == 0 {
        None
    } else if s[0].0@ == kh {
        Some(0)
    } else {
        match spec_overlay_status(s.drop_first(), kh) {
            Some(i) => Some(i + 1),
            None => None,
        }
    }
}

impl SpeculativeTree {
    /// An empty overlay: every key is unknown.
    pub fn new() -> (r: Self)
        ensures
            r.entries@.len() == 0,
    {
        SpeculativeTree { entries: Vec::new() }
    }

    /// Records the overlay's knowledge of one key hash.
    pub fn put(&mut self, key_hash: HashValue, status: AccountStatus)
        ensures
            final(self).entries@ == old(self).entries@.push((key_hash, status)),
    {
        self.entries.push((key_hash, status));
    }

    /// The overlay's answer for a key hash.
    pub fn get(&self, key_hash: &HashValue) -> (r: &AccountStatus)
        ensures
            match spec_overlay_status(self.entries@, key_hash@) {
                Some(i) => *r == self.entries@[i].1,
                None => *r is Unknown,
            },
    {
        proof {
            assert(self.entries@.skip(0) =~= self.entries@);
        }
        let mut i: usize = 0;
        while i < self.entries.len()
            invariant
                i <= self.entries@.len(),
                spec_overlay_status(self.entries@, key_hash@) == match spec_overlay_status(
                    self.entries@.skip(i as int),
                    key_hash@,
                ) {
                    Some(p) => Some(p + i),
                    None => None::<int>,
                },
            decreases self.entries@.len() - i,
        {
            proof {
                assert(self.entries@.skip(i as int).drop_first() =~= self.entries@.skip(
                    i as int + 1,
                ));
                assert(self.entries@.skip(i as int)[0] == self.entries@[i as int]);
            }
            if self.entries[i].0.equals(key_hash) {
                return &self.entries[i].1;
            }
            i = i + 1;
        }
        &AccountStatus::Unknown
    }
}

/// The overlay's answer for a key hash as a status value: the first entry
/// under the hash, or unknown when none is listed.
pub open spec fn overlay_status_of(s: Seq<(HashValue, AccountStatus)>, kh: Seq<u8>) -> AccountStatus {
    match spec_overlay_status(s, kh) {
        Some(i) => s[i].1,
        None => AccountStatus::Unknown,
    }
}

/// The capability the view needs of persistent storage: an authenticated
/// point read at a version.  `inv` is whatever the implementation needs of
/// itself.
pub trait DbReader {
    /// The implementation's own well-formedness.
    spec fn inv(&self) -> bool;

    /// The value a key holds at a version (or `None`), with its sparse
    /// Merkle proof.
    fn get_value_with_proof_by_version(&self, key: &ResourceKey, version: u64) -> (r: Result<
        (Option<ResourceValue>, SparseMerkleProof),
        AptosDbError,
    >)
        requires
            self.inv(),
    ;
}

impl DbReader for crate::AptosDB {
    open spec fn inv(&self) -> bool {
        self.wf()
    }

    fn get_value_with_proof_by_version(&self, key: &ResourceKey, version: u64) -> (r: Result<
        (Option<ResourceValue>, SparseMerkleProof),
        AptosDbError,
    >) {
        crate::AptosDB::get_value_with_proof_by_version(self, key, version)
    }
}

/// A mock of the storage reader used by tests: the latest value always
/// resolves to a fixed account-state blob, and authenticated reads are
/// not served.
#[derive(Debug)]
pub struct MockDbReaderWriter;

/// Relies on rand's `thread_rng` and `RngCore::fill_bytes`: the bytes are
/// arbitrary; only their number is known.
#[verifier::external_body]
fn random_bytes(n: usize) -> (r: Vec<u8>)
    ensures
        r@.len() == n,
{
    let mut v = vec![0u8; n];
    rand::RngCore::fill_bytes(&mut rand::thread_rng(), &mut v);
    v
}

/// The fixed account-state blob the mock serves: one entry under a fixed
/// path, holding freshly drawn bytes.
pub fn get_mock_account_state_blob() -> (r: ResourceValue)
    ensures
        r@.len() > 0,
{
    let mut path: Vec<u8> = Vec::new();
    path.push(1);
    let value = random_bytes(16);
    let mut entries: Vec<(Vec<u8>, Vec<u8>)> = Vec::new();
    entries.push((path, value));
    let state = AccountState { entries };
    let bytes = crate::account_state::encode_account_state(&state);
    proof {
        assert(bytes@.len() >= 8);
    }
    ResourceValue { bytes }
}

impl MockDbReaderWriter {
    /// The mock's latest value: always the fixed blob.
    pub fn get_latest_value(&self, _state_store_key: &ResourceKey) -> (r: Result<
        Option<ResourceValue>,
        AptosDbError,
    >)
        ensures
            r matches Ok(v) ==> v is Some,
    {
        Ok(Some(get_mock_account_state_blob()))
    }
}

impl DbReader for MockDbReaderWriter {
    open spec fn inv(&self) -> bool {
        true
    }

    fn get_value_with_proof_by_version(&self, key: &ResourceKey, version: u64) -> (r: Result<
        (Option<ResourceValue>, SparseMerkleProof),
        AptosDbError,
    >) {
        Err(AptosDbError::NotFound)
    }
}

/// The path the virtual machine reads: an account and a path inside its
/// state.
#[derive(Debug)]
pub struct AccessPath {
    pub address: AccountAddress,
    pub path: Vec<u8>,
}

/// What a consumed view hands to the tree builder: the frozen overlay, the
/// resolved account states, and the gathered proofs.
#[derive(Debug)]
pub struct StateCache {
    pub frozen_base: SpeculativeTree,
    pub accounts: Vec<(AccountAddress, AccountState)>,
    pub proofs: Vec<(HashValue, SparseMerkleProof)>,
}

/// Looks an address up in the account cache.
pub open spec fn find_account(s: Seq<(AccountAddress, AccountState)>, a: Seq<u8>) -> Option<AccountState>
    decreases s.len(),
{
    if s.len() == 0 {
        None
    } else if s[0].0@ == a {
        Some(s[0].1)
    } else {
        find_account(s.drop_first(), a)
    }
}

/// A snapshot of the global state at two levels: the speculative overlay
/// atop the pinned persistent root, with the two caches resolved reads
/// fill.
#[derive(Debug)]
pub struct VerifiedStateView<R: DbReader> {
    /// Identifies what this view serves, for logging.
    pub id: u64,
    /// The persistent storage the view falls back to.
    pub reader: R,
    /// The persistent version the view pins, when one exists.
    pub latest_persistent_version: Option<u64>,
    /// The persistent state root every fetched proof must verify against.
    pub latest_persistent_state_root: HashValue,
    /// The frozen speculative overlay carrying the pending write sets.
    pub speculative_state: SpeculativeTree,
    /// Resolved account states: at most one entry per address, stable once
    /// cached.
    pub account_to_state_cache: Vec<(AccountAddress, AccountState)>,
    /// Gathered proofs by key hash, last writer winning.
    pub account_to_proof_cache: Vec<(HashValue, SparseMerkleProof)>,
}

impl<R: DbReader> VerifiedStateView<R> {
    /// The view's account cache as a lookup.
    pub open spec fn cached(self, a: Seq<u8>) -> Option<AccountState> {
        find_account(self.account_to_state_cache@, a)
    }

    /// Builds a view over `reader` pinned at the given persistent version
    /// and root, under the speculative overlay.  A missing version with a
    /// root other than the placeholder means a pre-seeded state: the
    /// pre-genesis version stands in.
    pub fn new(
        id: u64,
        reader: R,
        latest_persistent_version: Option<u64>,
        latest_persistent_state_root: HashValue,
        speculative_state: SpeculativeTree,
    ) -> (r: Self)
        ensures
            r.id == id,
            r.account_to_state_cache@.len() == 0,
            r.account_to_proof_cache@.len() == 0,
            r.latest_persistent_version == (match latest_persistent_version {
                Some(v) => Some(v),
                None => {
                    if latest_persistent_state_root@ != placeholder_of(
                        TAG_SPARSE_MERKLE_PLACEHOLDER,
                    ) {
                        Some(PRE_GENESIS_VERSION)
                    } else {
                        None::<u64>
                    }
                }
            }),
    {
        let version = match latest_persistent_version {
            Some(v) => Some(v),
            None => {
                let ph = placeholder(TAG_SPARSE_MERKLE_PLACEHOLDER);
                if !latest_persistent_state_root.equals(&ph) {
                    Some(PRE_GENESIS_VERSION)
                } else {
                    None
                }
            },
        };
        VerifiedStateView {
            id,
            reader,
            latest_persistent_version: version,
            latest_persistent_state_root,
            speculative_state,
            account_to_state_cache: Vec::new(),
            account_to_proof_cache: Vec::new(),
        }
    }

    /// The view's tag.
    pub fn id(&self) -> (r: u64)
        ensures
            r == self.id,
    {
        self.id
    }

    /// Whether the view sits before any persistent state.
    pub fn is_genesis(&self) -> (r: bool)
        ensures
            r == (self.latest_persistent_version is None),
    {
        self.latest_persistent_version.is_none()
    }

    /// Consumes the view into what the tree builder needs, handing the
    /// reader back.
    pub fn into_state_cache(self) -> (r: (StateCache, R))
        ensures
            r.0.frozen_base == self.speculative_state,
            r.0.accounts == self.account_to_state_cache,
            r.0.proofs == self.account_to_proof_cache,
    {
        (
            StateCache {
                frozen_base: self.speculative_state,
                accounts: self.account_to_state_cache,
                proofs: self.account_to_proof_cache,
            },
            self.reader,
        )
    }

    /// Looks the account cache up.
    fn find_cached(&self, address: &AccountAddress) -> (r: Option<&AccountState>)
        ensures
            match r {
                Some(st) => self.cached(address@) == Some(*st),
                None => self.cached(address@) is None,
            },
    {
        proof {
            assert(self.account_to_state_cache@.skip(0) =~= self.account_to_state_cache@);
        }
        let mut i: usize = 0;
        while i < self.account_to_state_cache.len()
            invariant
                i <= self.account_to_state_cache@.len(),
                find_account(self.account_to_state_cache@, address@) == find_account(
                    self.account_to_state_cache@.skip(i as int),
                    address@,
                ),
            decreases self.account_to_state_cache@.len() - i,
        {
            proof {
                assert(self.account_to_state_cache@.skip(i as int).drop_first()
                    =~= self.account_to_state_cache@.skip(i as int + 1));
                assert(self.account_to_state_cache@.skip(i as int)[0]
                    == self.account_to_state_cache@[i as int]);
            }
            if self.account_to_state_cache[i].0.equals(address) {
                return Some(&self.account_to_state_cache[i].1);
            }
            i = i + 1;
        }
        None
    }

    /// Reads the bytes under an access path: first from the account
    /// cache, else through the overlay, else from persistent storage with
    /// the returned proof verified against the pinned root.  A cached
    /// account is served as is, and the view is left unchanged — reading
    /// the same path twice returns the same bytes and inserts nothing
    /// more.
    pub fn get(&mut self, access_path: &AccessPath) -> (r: Result<Option<Vec<u8>>, AptosDbError>)
        requires
            old(self).reader.inv(),
        ensures
            final(self).reader == old(self).reader,
            final(self).speculative_state == old(self).speculative_state,
            final(self).latest_persistent_version == old(self).latest_persistent_version,
            final(self).latest_persistent_state_root == old(self).latest_persistent_state_root,
            // A hit leaves the view untouched and answers from the cache.
            old(self).cached(access_path.address@) matches Some(st) ==> {
                &&& *final(self) == *old(self)
                &&& (r matches Ok(v) ==> (match v {
                    Some(b) => find_path(st.view_entries(), access_path.path@) == Some(b@),
                    None => find_path(st.view_entries(), access_path.path@) is None,
                }))
                &&& r is Ok
            },
            // Afterwards the account is cached, and the answer is what the
            // cached state holds: a later read repeats it.
            r is Ok ==> final(self).cached(access_path.address@) is Some,
            r matches Ok(v) ==> (match final(self).cached(access_path.address@) {
                Some(st) => (match v {
                    Some(b) => find_path(st.view_entries(), access_path.path@) == Some(b@),
                    None => find_path(st.view_entries(), access_path.path@) is None,
                }),
                None => false,
            }),
            // At most one proof enters the cache, and none when the
            // overlay answered.
            final(self).account_to_proof_cache@.len()
                <= old(self).account_to_proof_cache@.len() + 1,
            old(self).cached(access_path.address@) is Some
                ==> final(self).account_to_proof_cache == old(self).account_to_proof_cache,
            // The overlay decides: a staged blob (or staged absence) is
            // served from the overlay alone — success is owed, the proof
            // cache stays, and the cached state is the blob's decoding
            // (empty when the blob does not decode).
            ({
                let kh = resource_key_hash_of(
                    account_address_key_prefix() + access_path.address@,
                );
                let status = overlay_status_of(old(self).speculative_state.entries@, kh);
                &&& (old(self).cached(access_path.address@) is None ==> {
                    &&& (status matches AccountStatus::ExistsInScratchPad(blob) ==> {
                        &&& r is Ok
                        &&& final(self).account_to_proof_cache == old(
                            self,
                        ).account_to_proof_cache
                        &&& (match final(self).cached(access_path.address@) {
                            Some(st) => account_state_enc(st.view_entries()) == blob@
                                || st.view_entries().len() == 0,
                            None => false,
                        })
                    })
                    &&& (status is DoesNotExist ==> {
                        &&& r is Ok
                        &&& final(self).account_to_proof_cache == old(
                            self,
                        ).account_to_proof_cache
                        &&& (match final(self).cached(access_path.address@) {
                            Some(st) => st.view_entries().len() == 0,
                            None => false,
                        })
                    })
                })
                // A proof fetched from storage lands under the key's hash,
                // and nothing else in the proof cache moves.
                &&& ({
                    let oldpc = old(self).account_to_proof_cache@;
                    let newpc = final(self).account_to_proof_cache@;
                    &&& (forall|j: int| 0 <= j < oldpc.len() && j < newpc.len()
                        ==> #[trigger] newpc[j] == oldpc[j] || newpc[j].0@ == kh)
                    &&& (newpc.len() == oldpc.len() + 1 ==> newpc[oldpc.len() as int].0@ == kh)
                })
            }),
    {
        let address = &access_path.address;
        let path = &access_path.path;
        match self.find_cached(address) {
            Some(contents) => {
                let r = contents.get(path);
                return Ok(r);
            },
            None => {},
        }
        let key = ResourceKey::AccountAddressKey(address.clone());
        let address_hash = key.hash();
        let ghost kh = resource_key_hash_of(account_address_key_prefix() + access_path.address@);
        proof {
            assert(key@ == account_address_key_prefix() + access_path.address@);
            assert(address_hash@ == kh);
        }
        let ghost status = overlay_status_of(self.speculative_state.entries@, kh);
        let ghost from_overlay: bool;
        let blob_option: Option<ResourceValue> = match self.speculative_state.get(&address_hash) {
            AccountStatus::ExistsInScratchPad(blob) => {
                proof {
                    from_overlay = true;
                    assert(status == AccountStatus::ExistsInScratchPad(*blob));
                }
                Some(blob.clone())
            },
            AccountStatus::DoesNotExist => {
                proof {
                    from_overlay = true;
                    assert(status is DoesNotExist);
                }
                None
            },
            // Whether persistent or unknown, only storage holds the bytes:
            // fetch and verify against the pinned root.
            AccountStatus::ExistsInDB | AccountStatus::Unknown => {
                proof {
                    from_overlay = false;
                }
                let (blob, pf) = match self.latest_persistent_version {
                    Some(version) => {
                        match self.reader.get_value_with_proof_by_version(&key, version) {
                            Ok(p) => p,
                            Err(e) => {
                                return Err(e);
                            },
                        }
                    },
                    None => (None, SparseMerkleProof { leaf: None, siblings: Vec::new() }),
                };
                if !pf.verify(&self.latest_persistent_state_root, &address_hash, blob.as_ref()) {
                    return Err(AptosDbError::ProofInvalid);
                }
                self.insert_proof(address_hash, pf);
                blob
            },
        };
        let ghost gblob: Option<Seq<u8>> = match blob_option {
            Some(ref b) => Some(b@),
            None => None,
        };
        let new_account_state = match blob_option {
            Some(blob) => {
                match decode_account_state(&blob.bytes) {
                    Some(st) => st,
                    None => AccountState::empty(),
                }
            },
            None => AccountState::empty(),
        };
        proof {
            assert(self.account_to_state_cache == old(self).account_to_state_cache);
            if from_overlay {
                assert(self.account_to_proof_cache == old(self).account_to_proof_cache);
            }
            match gblob {
                Some(b) => {
                    assert(account_state_enc(new_account_state.view_entries()) == b
                        || new_account_state.view_entries().len() == 0);
                },
                None => {
                    assert(new_account_state.view_entries().len() == 0);
                },
            }
        }
        // A concurrent resolver could have filled the slot first: insert
        // only when still vacant, so a key's resolved state is stable.
        self.insert_account_if_absent(address, new_account_state);
        match self.find_cached(address) {
            Some(contents) => {
                let r = contents.get(path);
                Ok(r)
            },
            None => Err(AptosDbError::Corruption),
        }
    }

    /// Inserts a proof under a key hash, the last writer winning.
    fn insert_proof(&mut self, key_hash: HashValue, pf: SparseMerkleProof)
        ensures
            final(self).account_to_proof_cache@.len()
                <= old(self).account_to_proof_cache@.len() + 1,
            final(self).account_to_proof_cache@.len()
                >= old(self).account_to_proof_cache@.len(),
            forall|j: int| 0 <= j < old(self).account_to_proof_cache@.len()
                ==> #[trigger] final(self).account_to_proof_cache@[j]
                    == old(self).account_to_proof_cache@[j]
                    || final(self).account_to_proof_cache@[j].0@ == key_hash@,
            final(self).account_to_proof_cache@.len()
                == old(self).account_to_proof_cache@.len() + 1
                ==> final(self).account_to_proof_cache@[old(
                self,
            ).account_to_proof_cache@.len() as int].0@ == key_hash@,
            final(self).reader == old(self).reader,
            final(self).speculative_state == old(self).speculative_state,
            final(self).account_to_state_cache == old(self).account_to_state_cache,
            final(self).latest_persistent_version == old(self).latest_persistent_version,
            final(self).latest_persistent_state_root == old(self).latest_persistent_state_root,
            final(self).id == old(self).id,
    {
        let mut i: usize = 0;
        let n = self.account_to_proof_cache.len();
        while i < n
            invariant
                n == self.account_to_proof_cache@.len(),
                i <= n,
                *self == *old(self),
            decreases n - i,
        {
            if self.account_to_proof_cache[i].0.equals(&key_hash) {
                self.account_to_proof_cache.set(i, (key_hash, pf));
                return;
            }
            i = i + 1;
        }
        self.account_to_proof_cache.push((key_hash, pf));
    }

    /// Inserts a resolved account state only when the slot is still
    /// vacant.
    fn insert_account_if_absent(&mut self, address: &AccountAddress, st: AccountState)
        ensures
            final(self).cached(address@) is Some,
            old(self).cached(address@) is None ==> final(self).cached(address@) == Some(st),
            final(self).reader == old(self).reader,
            final(self).speculative_state == old(self).speculative_state,
            final(self).account_to_proof_cache == old(self).account_to_proof_cache,
            final(self).latest_persistent_version == old(self).latest_persistent_version,
            final(self).latest_persistent_state_root == old(self).latest_persistent_state_root,
            final(self).id == old(self).id,
    {
        match self.find_cached_index(address) {
            Some(_) => {},
            None => {
                let ghost pre = self.account_to_state_cache@;
                self.account_to_state_cache.push((address.clone(), st));
                proof {
                    lemma_find_account_push(pre, address@, self.account_to_state_cache@);
                }
            },
        }
    }

    /// The position of an address in the account cache.
    fn find_cached_index(&self, address: &AccountAddress) -> (r: Option<usize>)
        ensures
            r is Some <==> self.cached(address@) is Some,
            r matches Some(i) ==> i < self.account_to_state_cache@.len()
                && self.account_to_state_cache@[i as int].0@ == address@,
    {
        proof {
            assert(self.account_to_state_cache@.skip(0) =~= self.account_to_state_cache@);
        }
        let mut i: usize = 0;
        while i < self.account_to_state_cache.len()
            invariant
                i <= self.account_to_state_cache@.len(),
                find_account(self.account_to_state_cache@, address@) == find_account(
                    self.account_to_state_cache@.skip(i as int),
                    address@,
                ),
            decreases self.account_to_state_cache@.len() - i,
        {
            proof {
                assert(self.account_to_state_cache@.skip(i as int).drop_first()
                    =~= self.account_to_state_cache@.skip(i as int + 1));
                assert(self.account_to_state_cache@.skip(i as int)[0]
                    == self.account_to_state_cache@[i as int]);
            }
            if self.account_to_state_cache[i].0.equals(address) {
                return Some(i);
            }
            i = i + 1;
        }
        None
    }
}

/// Pushing an entry for an address absent from the cache makes the cache
/// answer with exactly that entry.
proof fn lemma_find_account_push(
    pre: Seq<(AccountAddress, AccountState)>,
    a: Seq<u8>,
    post: Seq<(AccountAddress, AccountState)>,
)
    requires
        post.len() == pre.len() + 1,
        forall|i: int| 0 <= i < pre.len() ==> #[trigger] post[i] == pre[i],
        post[post.len() - 1].0@ == a,
        find_account(pre, a) is None,
    ensures
        find_account(post, a) == Some(post[post.len() - 1].1),
    decreases pre.len(),
{
    if pre.len() == 0 {
        assert(post[0].0@ == a);
        assert(post.drop_first() =~= Seq::<(AccountAddress, AccountState)>::empty());
    } else {
        assert(post[0] == pre[0]);
        assert(pre[0].0@ != a);
        assert(forall|i: int| 0 <= i < pre.drop_first().len()
            ==> #[trigger] post.drop_first()[i] == pre.drop_first()[i]);
        assert(post.drop_first()[post.drop_first().len() - 1].0@ == a);
        lemma_find_account_push(pre.drop_first(), a, post.drop_first());
    }
}

} // verus!
