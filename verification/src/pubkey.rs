//! Identities and storage addresses: fixed-width public-key equivalents.

use vstd::prelude::*;

verus! {

/// The exact width, in bytes, of an identity or storage address.
pub const KEY_LEN: usize = 32;

/// An identity (public-key equivalent) or storage address: exactly
/// [`KEY_LEN`] bytes. The same type names both the party that funds and
/// owns a record and the address at which a record is stored.
pub struct Pubkey {
    pub bytes: Vec<u8>,
}

impl View for Pubkey {
    type V = Seq<u8>;

    open spec fn view(&self) -> Seq<u8> {
        self.bytes@
    }
}

impl Pubkey {
    /// A key is well formed when it holds exactly [`KEY_LEN`] bytes.
    pub open spec fn wf(&self) -> bool {
        self@.len() == KEY_LEN
    }

    /// Builds a key from its byte representation.
    pub fn new(bytes: Vec<u8>) -> (key: Pubkey)
        requires
            bytes@.len() == KEY_LEN,
        ensures
            key@ == bytes@,
            key.wf(),
    {
        Pubkey { bytes }
    }

    /// An independent copy holding the same bytes.
    pub fn duplicate(&self) -> (copy: Pubkey)
        ensures
            copy@ == self@,
    {
        let mut bytes: Vec<u8> = Vec::new();
        let mut i: usize = 0;
        while i < self.bytes.len()
            invariant
                i <= self.bytes@.len(),
                bytes@ == self.bytes@.subrange(0, i as int),
            decreases self.bytes@.len() - i,
        {
            bytes.push(self.bytes[i]);
            i = i + 1;
        }
        proof {
            assert(self.bytes@.subrange(0, self.bytes@.len() as int) == self.bytes@);
        }
        Pubkey { bytes }
    }

    /// Byte-for-byte equality of two keys.
    pub fn equals(&self, other: &Pubkey) -> (same: bool)
        ensures
            same == (self@ == other@),
    {
        if self.bytes.len() != other.bytes.len() {
            return false;
        }
        let mut i: usize = 0;
        while i < self.bytes.len()
            invariant
                i <= self.bytes@.len(),
                self.bytes@.len() == other.bytes@.len(),
                forall|j: int| 0 <= j < i ==> self.bytes@[j] == other.bytes@[j],
            decreases self.bytes@.len() - i,
        {
            if self.bytes[i] != other.bytes[i] {
                return false;
            }
            i = i + 1;
        }
        proof {
            assert(self.bytes@ =~= other.bytes@);
        }
        true
    }
}

} // verus!
