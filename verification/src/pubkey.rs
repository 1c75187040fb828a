//! Identities: of the program, of an account, of an account's owner.

use vstd::prelude::*;

verus! {

/// How many bytes an identity has.
pub const PUBKEY_BYTES: usize = 32;

/// A public identifier of fixed width. The program only ever compares two of
/// them for equality.
#[derive(Clone, Copy, Debug)]
pub struct Pubkey(pub [u8; PUBKEY_BYTES]);

impl View for Pubkey {
    type V = Seq<u8>;

    open spec fn view(&self) -> Seq<u8> {
        self.0@
    }
}

impl Pubkey {
    /// The identity with the given bytes.
    pub fn new_from_array(bytes: [u8; PUBKEY_BYTES]) -> (key: Pubkey)
        ensures
            key@ == bytes@,
            key.0 == bytes,
    {
        Pubkey(bytes)
    }

    /// The bytes of this identity.
    pub fn to_bytes(&self) -> (bytes: [u8; PUBKEY_BYTES])
        ensures
            bytes@ == self@,
            bytes == self.0,
    {
        self.0
    }

    /// Whether the two identities have the same bytes.
    pub fn same_as(&self, other: &Pubkey) -> (same: bool)
        ensures
            same == (self@ == other@),
    {
        let mut i: usize = 0;
        while i < PUBKEY_BYTES
            invariant
                i <= PUBKEY_BYTES,
                forall|j: int| 0 <= j < i ==> self.0@[j] == other.0@[j],
            decreases PUBKEY_BYTES - i,
        {
            if self.0[i] != other.0[i] {
                return false;
            }
            i += 1;
        }
        assert(self.0@ =~= other.0@);
        true
    }
}

impl PartialEq for Pubkey {
    fn eq(&self, other: &Pubkey) -> (same: bool) {
        self.same_as(other)
    }
}

impl Eq for Pubkey {

}

impl vstd::std_specs::cmp::PartialEqSpecImpl for Pubkey {
    open spec fn obeys_eq_spec() -> bool {
        true
    }

    open spec fn eq_spec(&self, other: &Pubkey) -> bool {
        self@ == other@
    }
}

impl Default for Pubkey {
    /// The identity whose bytes are all zero.
    fn default() -> (key: Pubkey)
        ensures
            key@ == Seq::new(32, |i: int| 0u8),
    {
        let key = Pubkey([0u8; PUBKEY_BYTES]);
        assert(key@ =~= Seq::new(32, |i: int| 0u8));
        key
    }
}

} // verus!
