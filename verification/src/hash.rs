//! Fixed-width digests that name blocks, chunks, roots and epochs.

use vstd::prelude::*;
use vstd::std_specs::cmp::PartialEqSpecImpl;

verus! {

/// A 32-byte digest. Two digests are equal exactly when all their bytes are.
#[derive(Clone, Copy, Debug, Hash)]
pub struct CryptoHash(pub [u8; 32]);

impl DeepView for CryptoHash {
    type V = CryptoHash;

    open spec fn deep_view(&self) -> CryptoHash {
        *self
    }
}

impl CryptoHash {
    /// The bytes of the digest.
    pub open spec fn bytes(self) -> Seq<u8> {
        self.0@
    }

    /// The all-zero digest, which stands for "no block" before genesis.
    pub open spec fn zero() -> CryptoHash {
        CryptoHash(vstd::array::spec_array_fill_for_copy_type::<u8, 32>(0u8))
    }

    pub fn new(bytes: [u8; 32]) -> (h: CryptoHash)
        ensures
            h == CryptoHash(bytes),
    {
        CryptoHash(bytes)
    }

    pub fn as_bytes(&self) -> (b: &[u8; 32])
        ensures
            *b == self.0,
    {
        &self.0
    }
}

impl Default for CryptoHash {
    fn default() -> (h: CryptoHash)
        ensures
            h == CryptoHash::zero(),
    {
        CryptoHash([0u8; 32])
    }
}

impl PartialEq for CryptoHash {
    fn eq(&self, other: &CryptoHash) -> (r: bool) {
        let mut i: usize = 0;
        while i < 32
            invariant
                i <= 32,
                forall|j: int| 0 <= j < i ==> self.0[j] == other.0[j],
            decreases 32 - i,
        {
            if self.0[i] != other.0[i] {
                return false;
            }
            i += 1;
        }
        assert(self.0 =~= other.0);
        true
    }
}

impl PartialEqSpecImpl for CryptoHash {
    open spec fn obeys_eq_spec() -> bool {
        true
    }

    open spec fn eq_spec(&self, other: &CryptoHash) -> bool {
        *self == *other
    }
}

impl Eq for CryptoHash {

}

} // verus!
