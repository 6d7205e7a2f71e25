//! Keys and values of the authenticated state store.
//!
//! A state cell is addressed by a `ResourceKey`; today the only variant is
//! an account address.  The raw byte form of an address key is the fixed
//! textual prefix `acc_blb_|` followed by the raw address bytes, and the key
//! hash used by the sparse Merkle tree is the domain-tagged hash of that
//! byte string.

use vstd::prelude::*;
use crate::hash::{
    HashValue, clone_bytes, tagged_hash, tagged_hash_of, TAG_RESOURCE_KEY, TAG_RESOURCE_VALUE,
};

verus! {

/// Number of bytes in an account address.
pub const ADDRESS_LENGTH: usize = 16;

/// An account address: a fixed-width byte string.
#[derive(Debug)]
pub struct AccountAddress {
    pub bytes: Vec<u8>,
}

impl View for AccountAddress {
    type V = Seq<u8>;

    open spec fn view(&self) -> Seq<u8> {
        self.bytes@
    }
}

impl Clone for AccountAddress {
    fn clone(&self) -> (r: Self)
        ensures
            r@ == self@,
    {
        AccountAddress { bytes: clone_bytes(&self.bytes) }
    }
}

impl AccountAddress {
    /// Byte-wise equality of two addresses.
    pub fn equals(&self, other: &AccountAddress) -> (r: bool)
        ensures
            r <==> self@ == other@,
    {
        let r = self.bytes == other.bytes;
        proof {
            if self@ =~= other@ {
                assert(self@ == other@);
            }
        }
        r
    }
}

/// The byte string `acc_blb_|` that prefixes the raw form of an account
/// address key.
pub open spec fn account_address_key_prefix() -> Seq<u8> {
    seq![97u8, 99u8, 99u8, 95u8, 98u8, 108u8, 98u8, 95u8, 124u8]
}

/// Builds the `acc_blb_|` prefix.
pub fn build_account_address_key_prefix() -> (r: Vec<u8>)
    ensures
        r@ == account_address_key_prefix(),
{
    let mut r: Vec<u8> = Vec::new();
    r.push(97);
    r.push(99);
    r.push(99);
    r.push(95);
    r.push(98);
    r.push(108);
    r.push(98);
    r.push(95);
    r.push(124);
    proof {
        assert(r@ =~= account_address_key_prefix());
    }
    r
}

/// A key addressing one cell of the authenticated state store.
#[derive(Debug)]
pub enum ResourceKey {
    AccountAddressKey(AccountAddress),
}

impl View for ResourceKey {
    type V = Seq<u8>;

    /// The raw byte form of the key: the account prefix followed by the
    /// address bytes.
    open spec fn view(&self) -> Seq<u8> {
        match self {
            ResourceKey::AccountAddressKey(addr) => account_address_key_prefix() + addr@,
        }
    }
}

impl Clone for ResourceKey {
    fn clone(&self) -> (r: Self)
        ensures
            r@ == self@,
    {
        match self {
            ResourceKey::AccountAddressKey(addr) => ResourceKey::AccountAddressKey(addr.clone()),
        }
    }
}

/// The hash of a resource key: the domain-tagged hash of its raw byte form.
pub open spec fn resource_key_hash_of(raw: Seq<u8>) -> Seq<u8> {
    tagged_hash_of(TAG_RESOURCE_KEY, raw)
}

impl ResourceKey {
    /// The raw byte form of this key.
    pub fn raw_bytes(&self) -> (r: Vec<u8>)
        ensures
            r@ == self@,
    {
        match self {
            ResourceKey::AccountAddressKey(addr) => {
                let mut r = build_account_address_key_prefix();
                r.extend_from_slice(addr.bytes.as_slice());
                proof {
                    assert(r@ =~= account_address_key_prefix() + addr@);
                }
                r
            },
        }
    }

    /// The hash under which this key is stored in the sparse Merkle tree.
    pub fn hash(&self) -> (r: HashValue)
        ensures
            r@ == resource_key_hash_of(self@),
            r.wf(),
    {
        let raw = self.raw_bytes();
        tagged_hash(TAG_RESOURCE_KEY, &raw)
    }

    /// Equality of two keys by their raw byte form.
    pub fn equals(&self, other: &ResourceKey) -> (r: bool)
        ensures
            r <==> self@ == other@,
    {
        match (self, other) {
            (ResourceKey::AccountAddressKey(a), ResourceKey::AccountAddressKey(b)) => {
                proof {
                    assert(a@ =~= (account_address_key_prefix() + a@).skip(9));
                    assert(b@ =~= (account_address_key_prefix() + b@).skip(9));
                }
                a.equals(b)
            },
        }
    }
}

/// A value held by one cell of the authenticated state store: opaque bytes.
#[derive(Debug)]
pub struct ResourceValue {
    pub bytes: Vec<u8>,
}

impl View for ResourceValue {
    type V = Seq<u8>;

    open spec fn view(&self) -> Seq<u8> {
        self.bytes@
    }
}

impl Clone for ResourceValue {
    fn clone(&self) -> (r: Self)
        ensures
            r@ == self@,
    {
        ResourceValue { bytes: clone_bytes(&self.bytes) }
    }
}

/// The hash of a resource value: the domain-tagged hash of its bytes.
pub open spec fn resource_value_hash_of(bytes: Seq<u8>) -> Seq<u8> {
    tagged_hash_of(TAG_RESOURCE_VALUE, bytes)
}

impl ResourceValue {
    /// The hash of this value, as it enters a sparse Merkle leaf.
    pub fn hash(&self) -> (r: HashValue)
        ensures
            r@ == resource_value_hash_of(self@),
            r.wf(),
    {
        tagged_hash(TAG_RESOURCE_VALUE, &self.bytes)
    }

    /// Byte-wise equality of two values.
    pub fn equals(&self, other: &ResourceValue) -> (r: bool)
        ensures
            r <==> self@ == other@,
    {
        let r = self.bytes == other.bytes;
        proof {
            if self@ =~= other@ {
                assert(self@ == other@);
            }
        }
        r
    }
}

/// A state store key, as the storage engine's schema layer sees it.
#[derive(Debug)]
pub enum StateStoreKey {
    AccountStateKey(AccountAddress),
}

/// The raw byte form of a state store key, ready for the engine.
#[derive(Debug)]
pub struct RawStateStoreKey(pub Vec<u8>);

impl RawStateStoreKey {
    /// Encodes a state store key into its raw byte form: the account prefix
    /// followed by the address bytes.
    pub fn from(key: StateStoreKey) -> (r: RawStateStoreKey)
        ensures
            r.0@ == account_address_key_prefix() + (match key {
                StateStoreKey::AccountStateKey(addr) => addr@,
            }),
    {
        match key {
            StateStoreKey::AccountStateKey(addr) => {
                let mut bytes = build_account_address_key_prefix();
                bytes.extend_from_slice(addr.bytes.as_slice());
                proof {
                    assert(bytes@ =~= account_address_key_prefix() + addr@);
                }
                RawStateStoreKey(bytes)
            },
        }
    }
}

} // verus!
