use vstd::prelude::*;

verus! {

/// A 32-byte account address.
#[derive(Clone, Copy, Debug, PartialEq, Eq)]
pub struct Pubkey {
    pub bytes: [u8; 32],
}

impl View for Pubkey {
    type V = Seq<u8>;

    open spec fn view(&self) -> Seq<u8> {
        self.bytes@
    }
}

impl Pubkey {
    /// The address made of the given bytes.
    pub fn new_from_array(bytes: [u8; 32]) -> (k: Pubkey)
        ensures
            k.bytes == bytes,
    {
        Pubkey { bytes }
    }

    /// The all-zero address.
    pub fn zero() -> (k: Pubkey)
        ensures
            forall|i: int| 0 <= i < 32 ==> k.bytes[i] == 0,
    {
        Pubkey { bytes: [0u8; 32] }
    }

    /// Byte-wise equality of two addresses.
    pub fn equals(&self, other: &Pubkey) -> (r: bool)
        ensures
            r == (*self == *other),
            r == (self@ == other@),
    {
        broadcast use vstd::array::group_array_axioms;
        let mut i: usize = 0;
        while i < 32
            invariant
                0 <= i <= 32,
                forall|j: int| 0 <= j < i ==> self.bytes[j] == other.bytes[j],
            decreases 32 - i,
        {
            if self.bytes[i] != other.bytes[i] {
                assert(self@[i as int] != other@[i as int]);
                return false;
            }
            i = i + 1;
        }
        assert(self.bytes =~= other.bytes);
        true
    }
}

} // verus!
