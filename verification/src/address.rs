//! Guest-physical addresses and their overflow-checked arithmetic.
use vstd::prelude::*;

verus! {

/// An address in the address space presented to the guest.
#[derive(Clone, Copy, Debug, PartialEq, Eq, Hash, Structural)]
pub struct GuestAddress(pub u64);

/// `vm_memory::Address::checked_add` on a `vm_memory::GuestAddress`: the sum
/// of the raw value and the offset, or `None` when it does not fit in 64 bits.
#[verifier::external_body]
fn guest_checked_add(base: u64, offset: u64) -> (sum: Option<u64>)
    ensures
        base + offset <= u64::MAX ==> sum == Some((base + offset) as u64),
        base + offset > u64::MAX ==> sum.is_none(),
{
    match vm_memory::Address::checked_add(&vm_memory::GuestAddress(base), offset) {
        Some(a) => Some(a.0),
        None => None,
    }
}

impl GuestAddress {
    /// The address with the given raw value.
    pub fn new(raw: u64) -> (a: GuestAddress)
        ensures
            a.0 == raw,
    {
        GuestAddress(raw)
    }

    /// The raw value of the address.
    pub fn raw_value(&self) -> (raw: u64)
        ensures
            raw == self.0,
    {
        self.0
    }

    /// `self + offset`, or `None` if the sum leaves the 64-bit address space.
    pub fn checked_add(&self, offset: u64) -> (sum: Option<GuestAddress>)
        ensures
            self.0 + offset <= u64::MAX ==> sum == Some(GuestAddress((self.0 + offset) as u64)),
            self.0 + offset > u64::MAX ==> sum.is_none(),
    {
        match guest_checked_add(self.0, offset) {
            Some(raw) => Some(GuestAddress(raw)),
            None => None,
        }
    }
}

} // verus!
