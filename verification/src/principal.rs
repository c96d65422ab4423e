//! The identity of a caller.

use vstd::prelude::*;
use crate::keymap::MapKey;

verus! {

/// An identity of the network: up to 29 bytes.
#[derive(Debug, PartialEq, Eq)]
pub struct Principal {
    bytes: Vec<u8>,
}

/// The written form of an identity: its checksum and bytes in grouped base 32.
pub uninterp spec fn principal_text(bytes: Seq<u8>) -> Seq<char>;

/// Calls `Principal::from_slice` and `Principal::to_text` of `candid`. It claims that the text is
/// a function of the bytes. More than 29 bytes would make `from_slice` panic.
#[verifier::external_body]
fn candid_text(bytes: &Vec<u8>) -> (res: String)
    requires
        bytes@.len() <= 29,
    ensures
        res@ == principal_text(bytes@),
{
    candid::Principal::from_slice(bytes).to_text()
}

impl View for Principal {
    type V = Seq<u8>;

    closed spec fn view(&self) -> Seq<u8> {
        self.bytes@
    }
}

impl Principal {
    #[verifier::type_invariant]
    spec fn fits(&self) -> bool {
        self.bytes@.len() <= 29
    }

    /// The identity with these bytes; `None` if there are more than 29.
    pub fn try_from_bytes(bytes: Vec<u8>) -> (res: Option<Self>)
        ensures
            match res {
                Some(p) => bytes@.len() <= 29 && p@ == bytes@,
                None => bytes@.len() > 29,
            },
    {
        if bytes.len() <= 29 {
            Some(Principal { bytes })
        } else {
            None
        }
    }

    /// The bytes of the identity.
    pub fn as_bytes(&self) -> (res: &Vec<u8>)
        ensures
            res@ == self@,
            res@.len() <= 29,
    {
        proof {
            use_type_invariant(self);
        }
        &self.bytes
    }

    /// The written form of the identity.
    pub fn to_text(&self) -> (res: String)
        ensures
            res@ == principal_text(self@),
    {
        proof {
            use_type_invariant(self);
        }
        candid_text(&self.bytes)
    }
}

impl MapKey for Principal {
    fn same(&self, other: &Self) -> (res: bool) {
        if self.bytes.len() != other.bytes.len() {
            return false;
        }
        let mut i: usize = 0;
        while i < self.bytes.len()
            invariant
                i <= self.bytes.len(),
                self.bytes@.len() == other.bytes@.len(),
                forall|j: int| 0 <= j < i ==> self.bytes@[j] == other.bytes@[j],
            decreases self.bytes.len() - i,
        {
            if self.bytes[i] != other.bytes[i] {
                assert(self@[i as int] != other@[i as int]);
                return false;
            }
            i += 1;
        }
        assert(self@ =~= other@);
        true
    }
}

impl Clone for Principal {
    fn clone(&self) -> (res: Self)
        ensures
            res@ == self@,
    {
        proof {
            use_type_invariant(self);
        }
        let bytes = self.bytes.clone();
        assert(bytes@ =~= self.bytes@);
        Principal { bytes }
    }
}

} // verus!
