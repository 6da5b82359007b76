//! Account addresses as plain 32-byte values.
use vstd::prelude::*;

verus! {

/// A 32-byte account address (an ed25519 public key or a program-derived address).
#[derive(Clone, Copy, Debug, PartialEq, Eq)]
pub struct Address {
    pub bytes: [u8; 32],
}

impl View for Address {
    type V = Seq<u8>;

    open spec fn view(&self) -> Seq<u8> {
        self.bytes@
    }
}

/// The all-zero address, which a chain uses to mean "no leader yet".
pub open spec fn zero_address() -> Seq<u8> {
    Seq::new(32, |i: int| 0u8)
}

/// The default address: 32 zero bytes.
pub open spec fn zero_key() -> Address {
    Address { bytes: vstd::array::spec_array_fill_for_copy_type::<u8, 32>(0u8) }
}

/// The view of `zero_key` is 32 zero bytes.
pub proof fn lemma_zero_key_view()
    ensures
        zero_key()@ == zero_address(),
{
    broadcast use vstd::array::axiom_spec_array_fill_for_copy_type;

    assert(zero_key()@ =~= zero_address());
}

impl Address {
    pub fn new(bytes: [u8; 32]) -> (a: Address)
        ensures
            a.bytes == bytes,
    {
        Address { bytes }
    }

    /// The default (all-zero) address.
    pub fn zero() -> (a: Address)
        ensures
            a == zero_key(),
            a@ == zero_address(),
    {
        proof {
            lemma_zero_key_view();
        }
        Address { bytes: [0u8; 32] }
    }

    /// Byte-wise equality of two addresses.
    pub fn equals(&self, other: &Address) -> (r: bool)
        ensures
            r == (self@ == other@),
    {
        let mut i: usize = 0;
        while i < 32
            invariant
                0 <= i <= 32,
                self@.len() == 32,
                other@.len() == 32,
                forall|j: int| 0 <= j < i ==> self@[j] == other@[j],
            decreases 32 - i,
        {
            if self.bytes[i] != other.bytes[i] {
                return false;
            }
            i = i + 1;
        }
        assert(self@ =~= other@);
        true
    }

    /// Whether an address occurs in a list of addresses.
    pub fn is_in(&self, list: &Vec<Address>) -> (r: bool)
        ensures
            r == exists|i: int| 0 <= i < list@.len() && #[trigger] list@[i]@ == self@,
    {
        let mut i: usize = 0;
        while i < list.len()
            invariant
                0 <= i <= list@.len(),
                forall|j: int| 0 <= j < i ==> #[trigger] list@[j]@ != self@,
            decreases list.len() - i,
        {
            if list[i].equals(self) {
                return true;
            }
            i = i + 1;
        }
        false
    }
}

} // verus!
