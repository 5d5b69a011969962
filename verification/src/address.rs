//! The identity of an account or a principal.
use vstd::prelude::*;

verus! {

/// A 32-byte address.
#[derive(Clone, Copy, Debug, PartialEq, Eq, Hash)]
pub struct Address {
    pub bytes: [u8; 32],
}

impl View for Address {
    type V = Seq<u8>;

    open spec fn view(&self) -> Seq<u8> {
        self.bytes@
    }
}

impl Address {
    /// The bytes of the address that stands for "nobody".
    pub open spec fn zero_bytes() -> Seq<u8> {
        Seq::new(32, |i: int| 0u8)
    }

    /// An address from its bytes.
    pub fn new(bytes: [u8; 32]) -> (address: Address)
        ensures
            address@ == bytes@,
            address.bytes == bytes,
    {
        Address { bytes }
    }

    /// The address that stands for "nobody": all bytes zero.
    pub fn zero() -> (address: Address)
        ensures
            address@ == Self::zero_bytes(),
    {
        let address = Address { bytes: [0u8; 32] };
        assert(address@ =~= Self::zero_bytes());
        address
    }

    /// Whether two addresses hold the same bytes.
    pub fn same(&self, other: &Address) -> (equal: bool)
        ensures
            equal == (self@ == other@),
    {
        let mut i: usize = 0;
        while i < 32
            invariant
                i <= 32,
                forall|j: int| 0 <= j < i ==> self@[j] == other@[j],
            decreases 32 - i,
        {
            if self.bytes[i] != other.bytes[i] {
                return false;
            }
            i += 1;
        }
        assert(self@ =~= other@);
        true
    }

    /// Whether this is the address that stands for "nobody".
    pub fn is_zero(&self) -> (zero: bool)
        ensures
            zero == (self@ == Self::zero_bytes()),
    {
        let mut i: usize = 0;
        while i < 32
            invariant
                i <= 32,
                forall|j: int| 0 <= j < i ==> self@[j] == 0,
            decreases 32 - i,
        {
            if self.bytes[i] != 0 {
                assert(Self::zero_bytes()[i as int] == 0);
                return false;
            }
            i += 1;
        }
        assert(self@ =~= Self::zero_bytes());
        true
    }
}

} // verus!
