//! Identifiers shared by every component: 32-byte keys and socket endpoints.

use vstd::prelude::*;

verus! {

/// Ed25519 public key of a validator or of a client, as raw bytes.
pub type PublicKeyBytes = [u8; 32];

/// SHA-256 digest of a transaction payload.
pub type TransactionHash = [u8; 32];

/// A socket endpoint held as integers: the IPv6 form of the host address
/// (IPv4 hosts in their mapped form) and the port.
#[derive(Clone, Copy, Debug, PartialEq, Eq, Structural)]
pub struct PeerAddr {
    pub ip: u128,
    pub port: u16,
}

/// Two 32-byte identifiers are the same exactly when they hold the same
/// bytes.
pub proof fn lemma_bytes32_views(a: [u8; 32], b: [u8; 32])
    ensures
        (a@ == b@) == (a == b),
{
    if a@ == b@ {
        assert(a =~= b);
    }
}

/// Byte-wise comparison of two 32-byte identifiers.
pub fn bytes32_eq(a: &[u8; 32], b: &[u8; 32]) -> (same: bool)
    ensures
        same == (*a == *b),
{
    let mut i: usize = 0;
    while i < 32
        invariant
            i <= 32,
            forall|j: int| 0 <= j < i ==> a[j] == b[j],
        decreases 32 - i,
    {
        if a[i] != b[i] {
            return false;
        }
        i += 1;
    }
    assert(*a =~= *b);
    true
}

/// A key of a table: a value that can be compared at run time, with the
/// result that equality has in contracts.
pub trait Key: Sized + Copy {
    /// Whether `self` and `other` are the same value.
    fn same(&self, other: &Self) -> (same: bool)
        ensures
            same == (*self == *other),
    ;
}

impl Key for [u8; 32] {
    fn same(&self, other: &Self) -> (same: bool) {
        bytes32_eq(self, other)
    }
}

impl Key for PeerAddr {
    fn same(&self, other: &Self) -> (same: bool) {
        self.ip == other.ip && self.port == other.port
    }
}

/// Position of the first entry of `keys` equal to `key`, if there is one.
pub fn find_key<K: Key>(keys: &Vec<K>, key: &K) -> (pos: Option<usize>)
    ensures
        match pos {
            Some(i) => i < keys.len() && keys[i as int] == *key
                && forall|j: int| 0 <= j < i ==> keys[j] != *key,
            None => !keys@.contains(*key),
        },
{
    let mut i: usize = 0;
    while i < keys.len()
        invariant
            i <= keys.len(),
            forall|j: int| 0 <= j < i ==> keys[j] != *key,
        decreases keys.len() - i,
    {
        if keys[i].same(key) {
            return Some(i);
        }
        i += 1;
    }
    None
}

} // verus!
