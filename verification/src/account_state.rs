//! The canonical byte encoding of an account state: an ordered list of
//! `(path, bytes)` entries, written as a big-endian entry count followed by
//! length-prefixed path and value fields.  The decoder accepts exactly the
//! encoder's output: whatever it returns re-encodes to the input bytes.

use vstd::prelude::*;
use crate::hash::clone_bytes;
use crate::types::{be64, enc_bytes, push_u64_be, push_bytes_field};

verus! {

/// The value of eight big-endian bytes.
pub open spec fn be_u64_of(s: Seq<u8>) -> u64 {
    (
    (s[0] as u64) << 56 | (s[1] as u64) << 48 | (s[2] as u64) << 40 | (s[3] as u64) << 32 | (
    s[4] as u64) << 24 | (s[5] as u64) << 16 | (s[6] as u64) << 8 | (s[7] as u64)) as u64
}

/// Reading eight big-endian bytes inverts writing them.
pub proof fn lemma_be64_roundtrip(s: Seq<u8>)
    requires
        s.len() == 8,
    ensures
        be64(be_u64_of(s)) == s,
{
    let x = be_u64_of(s);
    let b0 = s[0];
    let b1 = s[1];
    let b2 = s[2];
    let b3 = s[3];
    let b4 = s[4];
    let b5 = s[5];
    let b6 = s[6];
    let b7 = s[7];
    assert({
        let y = ((b0 as u64) << 56 | (b1 as u64) << 48 | (b2 as u64) << 40 | (b3 as u64) << 32 | (
        b4 as u64) << 24 | (b5 as u64) << 16 | (b6 as u64) << 8 | (b7 as u64)) as u64;
        (y >> 56) as u8 == b0 && (y >> 48) as u8 == b1 && (y >> 40) as u8 == b2 && (y >> 32) as u8
            == b3 && (y >> 24) as u8 == b4 && (y >> 16) as u8 == b5 && (y >> 8) as u8 == b6
            && y as u8 == b7
    }) by (bit_vector);
    assert(be64(x) =~= s);
}

/// The encoding of the entry list, without the leading count.
pub open spec fn entries_enc(es: Seq<(Seq<u8>, Seq<u8>)>) -> Seq<u8>
    decreases es.len(),
{
    if es.len() == 0 {
        Seq::empty()
    } else {
        enc_bytes(es[0].0) + enc_bytes(es[0].1) + entries_enc(es.drop_first())
    }
}

/// Appending one entry to the list appends its encoding.
pub proof fn lemma_entries_enc_push(es: Seq<(Seq<u8>, Seq<u8>)>, x: (Seq<u8>, Seq<u8>))
    ensures
        entries_enc(es.push(x)) == entries_enc(es) + enc_bytes(x.0) + enc_bytes(x.1),
    decreases es.len(),
{
    if es.len() == 0 {
        assert(es.push(x)[0] == x);
        assert(es.push(x).drop_first() =~= Seq::<(Seq<u8>, Seq<u8>)>::empty());
        assert(entries_enc(es.push(x).drop_first()) =~= Seq::<u8>::empty());
        assert(entries_enc(es) =~= Seq::<u8>::empty());
        assert(entries_enc(es.push(x)) =~= entries_enc(es) + enc_bytes(x.0) + enc_bytes(x.1));
    } else {
        assert(es.push(x)[0] == es[0]);
        assert(es.push(x).drop_first() =~= es.drop_first().push(x));
        lemma_entries_enc_push(es.drop_first(), x);
        assert(entries_enc(es.push(x)) =~= entries_enc(es) + enc_bytes(x.0) + enc_bytes(x.1));
    }
}

/// The full encoding of an account state.
pub open spec fn account_state_enc(es: Seq<(Seq<u8>, Seq<u8>)>) -> Seq<u8> {
    be64(es.len() as u64) + entries_enc(es)
}

/// The views of an entry list.
pub open spec fn entry_views(s: Seq<(Vec<u8>, Vec<u8>)>) -> Seq<(Seq<u8>, Seq<u8>)> {
    s.map_values(|p: (Vec<u8>, Vec<u8>)| (p.0@, p.1@))
}

/// A decoded account state: ordered `(path, bytes)` entries.
#[derive(Debug)]
pub struct AccountState {
    pub entries: Vec<(Vec<u8>, Vec<u8>)>,
}

/// Looks a path up among decoded entries, first match winning.
pub open spec fn find_path(es: Seq<(Seq<u8>, Seq<u8>)>, path: Seq<u8>) -> Option<Seq<u8>>
    decreases es.len(),
{
    if es.len() == 0 {
        None
    } else if es[0].0 == path {
        Some(es[0].1)
    } else {
        find_path(es.drop_first(), path)
    }
}

impl AccountState {
    /// The views of this state's entries.
    pub open spec fn view_entries(self) -> Seq<(Seq<u8>, Seq<u8>)> {
        entry_views(self.entries@)
    }

    /// An empty account state: what a missing or undecodable blob stands
    /// for.
    pub fn empty() -> (r: Self)
        ensures
            r.view_entries().len() == 0,
    {
        AccountState { entries: Vec::new() }
    }

    /// The bytes stored under a path, or `None`.
    pub fn get(&self, path: &Vec<u8>) -> (r: Option<Vec<u8>>)
        ensures
            (match r {
                Some(v) => find_path(self.view_entries(), path@) == Some(v@),
                None => find_path(self.view_entries(), path@) is None,
            }),
    {
        proof {
            assert(self.entries@.skip(0) =~= self.entries@);
            assert(entry_views(self.entries@.skip(0)) =~= self.view_entries());
        }
        let mut i: usize = 0;
        while i < self.entries.len()
            invariant
                i <= self.entries@.len(),
                find_path(self.view_entries(), path@) == find_path(
                    entry_views(self.entries@.skip(i as int)),
                    path@,
                ),
            decreases self.entries@.len() - i,
        {
            proof {
                assert(entry_views(self.entries@.skip(i as int)).drop_first() =~= entry_views(
                    self.entries@.skip(i as int + 1),
                ));
                assert(entry_views(self.entries@.skip(i as int))[0]
                    == (self.entries@[i as int].0@, self.entries@[i as int].1@));
            }
            if self.entries[i].0 == *path {
                proof {
                    assert(self.entries@[i as int].0@ =~= path@);
                }
                return Some(clone_bytes(&self.entries[i].1));
            }
            proof {
                if self.entries@[i as int].0@ =~= path@ {
                    assert(self.entries@[i as int].0@ == path@);
                }
            }
            i = i + 1;
        }
        None
    }
}

/// Encodes an account state into its canonical bytes.
pub fn encode_account_state(state: &AccountState) -> (r: Vec<u8>)
    ensures
        r@ == account_state_enc(state.view_entries()),
{
    let mut buf: Vec<u8> = Vec::new();
    push_u64_be(&mut buf, state.entries.len() as u64);
    let mut i: usize = 0;
    while i < state.entries.len()
        invariant
            i <= state.entries@.len(),
            buf@ == be64(state.entries@.len() as u64) + entries_enc(
                entry_views(state.entries@.take(i as int)),
            ),
        decreases state.entries@.len() - i,
    {
        let ghost pre = entry_views(state.entries@.take(i as int));
        push_bytes_field(&mut buf, &state.entries[i].0);
        push_bytes_field(&mut buf, &state.entries[i].1);
        proof {
            lemma_entries_enc_push(pre, (state.entries@[i as int].0@, state.entries@[i as int].1@));
            assert(entry_views(state.entries@.take(i as int + 1)) =~= pre.push(
                (state.entries@[i as int].0@, state.entries@[i as int].1@),
            ));
            assert(buf@ =~= be64(state.entries@.len() as u64) + entries_enc(
                entry_views(state.entries@.take(i as int + 1)),
            ));
        }
        i = i + 1;
    }
    proof {
        assert(entry_views(state.entries@.take(state.entries@.len() as int)) =~= state.view_entries());
    }
    buf
}

/// Reads eight big-endian bytes at `pos`.
fn read_u64_be(bytes: &Vec<u8>, pos: usize) -> (r: u64)
    requires
        pos + 8 <= bytes@.len(),
    ensures
        be64(r) == bytes@.subrange(pos as int, pos as int + 8),
        r == be_u64_of(bytes@.subrange(pos as int, pos as int + 8)),
{
    let n = bytes.len();
    let r = (bytes[pos] as u64) << 56 | (bytes[pos + 1] as u64) << 48 | (bytes[pos + 2] as u64)
        << 40 | (bytes[pos + 3] as u64) << 32 | (bytes[pos + 4] as u64) << 24 | (bytes[pos
        + 5] as u64) << 16 | (bytes[pos + 6] as u64) << 8 | (bytes[pos + 7] as u64);
    proof {
        let s = bytes@.subrange(pos as int, pos as int + 8);
        assert(s[0] == bytes@[pos as int] && s[1] == bytes@[pos as int + 1] && s[2] == bytes@[pos as int + 2]
            && s[3] == bytes@[pos as int + 3] && s[4] == bytes@[pos as int + 4]
            && s[5] == bytes@[pos as int + 5] && s[6] == bytes@[pos as int + 6]
            && s[7] == bytes@[pos as int + 7]);
        lemma_be64_roundtrip(s);
    }
    r
}

/// Decodes an account state.  Whatever comes back re-encodes to exactly
/// the input bytes; ill-formed bytes yield `None`.
pub fn decode_account_state(bytes: &Vec<u8>) -> (r: Option<AccountState>)
    ensures
        r matches Some(st) ==> account_state_enc(st.view_entries()) == bytes@,
{
    if bytes.len() < 8 {
        return None;
    }
    let count = read_u64_be(bytes, 0);
    let nb = bytes.len();
    let mut entries: Vec<(Vec<u8>, Vec<u8>)> = Vec::new();
    let mut pos: usize = 8;
    let mut k: u64 = 0;
    while k < count
        invariant
            k <= count,
            nb == bytes@.len(),
            8 <= pos <= nb,
            entries@.len() == k,
            be64(count) == bytes@.subrange(0, 8),
            bytes@.take(pos as int) == bytes@.subrange(0, 8) + entries_enc(
                entry_views(entries@),
            ),
        decreases count - k,
    {
        let ghost pre = entry_views(entries@);
        let path = match read_field(bytes, pos) {
            Some(p) => p,
            None => {
                return None;
            },
        };
        let pos2 = pos + 8 + path.len();
        let value = match read_field(bytes, pos2) {
            Some(p) => p,
            None => {
                return None;
            },
        };
        let npos = pos2 + 8 + value.len();
        proof {
            lemma_entries_enc_push(pre, (path@, value@));
            assert(entry_views(entries@.push((path, value))) =~= pre.push((path@, value@)));
            assert(bytes@.take(npos as int) =~= bytes@.take(pos as int) + enc_bytes(path@)
                + enc_bytes(value@));
        }
        entries.push((path, value));
        pos = npos;
        k = k + 1;
    }
    if pos != bytes.len() {
        return None;
    }
    let st = AccountState { entries };
    proof {
        assert(bytes@.take(bytes@.len() as int) =~= bytes@);
        assert(account_state_enc(st.view_entries()) == bytes@);
    }
    Some(st)
}

/// Reads one length-prefixed field at `pos`: `None` when the bytes run
/// out.
fn read_field(bytes: &Vec<u8>, pos: usize) -> (r: Option<Vec<u8>>)
    requires
        pos <= bytes@.len(),
    ensures
        r matches Some(f) ==> {
            &&& pos + 8 + f@.len() <= bytes@.len()
            &&& enc_bytes(f@) == bytes@.subrange(pos as int, pos as int + 8 + f@.len())
        },
{
    if bytes.len() - pos < 8 {
        return None;
    }
    let len64 = read_u64_be(bytes, pos);
    if len64 > (bytes.len() - pos - 8) as u64 {
        return None;
    }
    let len = len64 as usize;
    let n = bytes.len();
    let mut f: Vec<u8> = Vec::new();
    let mut i: usize = 0;
    while i < len
        invariant
            i <= len,
            n == bytes@.len(),
            pos + 8 + len <= n,
            f@ == bytes@.subrange(pos as int + 8, pos as int + 8 + i as int),
        decreases len - i,
    {
        f.push(bytes[pos + 8 + i]);
        proof {
            assert(f@ =~= bytes@.subrange(pos as int + 8, pos as int + 8 + i as int + 1));
        }
        i = i + 1;
    }
    proof {
        assert(f@.len() == len);
        assert(be64(len as u64) == bytes@.subrange(pos as int, pos as int + 8));
        assert(enc_bytes(f@) =~= bytes@.subrange(pos as int, pos as int + 8 + len as int));
    }
    Some(f)
}

} // verus!
