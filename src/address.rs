//! Hardware addresses of wireless devices.

use vstd::prelude::*;

verus! {

/// A six-byte hardware address, most significant byte first.
#[derive(Clone, Copy, Debug)]
pub struct HardwareAddress {
    pub octets: [u8; 6],
}

impl PartialEq for HardwareAddress {
    fn eq(&self, other: &HardwareAddress) -> (r: bool)
        ensures
            r == (self.octets@ == other.octets@),
    {
        let mut i: usize = 0;
        while i < 6
            invariant
                0 <= i <= 6,
                forall|k: int| 0 <= k < i ==> self.octets@[k] == other.octets@[k],
            decreases 6 - i,
        {
            if self.octets[i] != other.octets[i] {
                return false;
            }
            i = i + 1;
        }
        assert(self.octets@ =~= other.octets@);
        true
    }
}

impl vstd::std_specs::cmp::PartialEqSpecImpl for HardwareAddress {
    open spec fn obeys_eq_spec() -> bool {
        true
    }

    open spec fn eq_spec(&self, other: &HardwareAddress) -> bool {
        self.octets@ == other.octets@
    }
}

impl Eq for HardwareAddress {
}

impl HardwareAddress {
    pub fn new(octets: [u8; 6]) -> (r: HardwareAddress)
        ensures
            r.octets == octets,
    {
        HardwareAddress { octets }
    }

    /// Whether `self` is one of `addresses`.
    pub fn is_among(&self, addresses: &Vec<HardwareAddress>) -> (r: bool)
        ensures
            r == exists|k: int| 0 <= k < addresses@.len() && addresses@[k].octets@ == self.octets@,
    {
        let mut i: usize = 0;
        while i < addresses.len()
            invariant
                0 <= i <= addresses@.len(),
                forall|k: int| 0 <= k < i ==> addresses@[k].octets@ != self.octets@,
            decreases addresses@.len() - i,
        {
            if addresses[i].eq(self) {
                return true;
            }
            i = i + 1;
        }
        false
    }
}

} // verus!
