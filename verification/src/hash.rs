//! Fixed-size hashes, keys and identifiers.

use sha3::Digest;
use vstd::prelude::*;

verus! {

/// 256 bits.
#[derive(Clone, Copy, Debug, PartialEq, Eq)]
pub struct H256 {
    pub bytes: [u8; 32],
}

/// 512 bits.
#[derive(Clone, Copy, Debug, PartialEq, Eq)]
pub struct H512 {
    pub bytes: [u8; 64],
}

/// A secret key.
pub type Secret = H256;

/// A public key.
pub type Public = H512;

/// A node is identified by its public key.
pub type NodeId = Public;

impl View for H256 {
    type V = Seq<u8>;

    open spec fn view(&self) -> Seq<u8> {
        self.bytes@
    }
}

/// The Keccak-256 digest of some bytes.
pub uninterp spec fn keccak256(data: Seq<u8>) -> Seq<u8>;

/// Calls `sha3::Keccak256::digest`. Claimed: the digest depends on the data alone. That it has
/// 32 bytes is part of its type. How it is computed is left unsaid.
#[verifier::external_body]
fn keccak256_digest(data: &[u8]) -> (digest: [u8; 32])
    ensures
        digest@ == keccak256(data@),
{
    sha3::Keccak256::digest(data).into()
}

impl H256 {
    /// The Keccak-256 digest of this value.
    pub fn sha3(&self) -> (digest: H256)
        ensures
            digest@ == keccak256(self@),
    {
        H256 { bytes: keccak256_digest(self.bytes.as_slice()) }
    }
}

impl H512 {
    /// Tells whether two values are the same.
    pub fn same_as(&self, other: &H512) -> (same: bool)
        ensures
            same == (*self == *other),
    {
        let mut i: usize = 0;
        while i < 64
            invariant
                i <= 64,
                forall|j: int| 0 <= j < i ==> self.bytes[j] == other.bytes[j],
            decreases 64 - i,
        {
            if self.bytes[i] != other.bytes[i] {
                return false;
            }
            i += 1;
        }
        assert(self.bytes =~= other.bytes);
        true
    }
}

/// A secret key with its public key.
#[derive(Clone, Copy)]
pub struct KeyPair {
    pub secret: Secret,
    pub public: Public,
}

} // verus!
