//! Segment selectors.

use crate::bits::{bit_range, get_bits_u16};
use crate::privilege_level::PrivilegeLevel;
use vstd::arithmetic::power2::lemma2_to64;
use vstd::prelude::*;

verus! {

/// A segment selector: the index of a descriptor in bits 3 to 15, the table
/// indicator in bit 2, the requested privilege level in bits 0 and 1.
#[derive(Clone, Copy, Debug, PartialEq, Eq, PartialOrd, Ord, Hash, Structural)]
pub struct SegmentSelector(pub u16);

impl SegmentSelector {
    /// The descriptor index that the selector holds.
    pub open spec fn spec_index(self) -> u16 {
        self.0 / 8
    }

    /// The requested privilege level that the selector holds.
    pub open spec fn spec_privilege_level(self) -> PrivilegeLevel {
        PrivilegeLevel::of_number(self.0 % 4)
    }

    /// The selector for the descriptor at `index` of the global table, with
    /// the requested privilege level `privilege_level`. Bits of `index` above
    /// the thirteenth are lost.
    pub fn new(index: u16, privilege_level: PrivilegeLevel) -> (selector: SegmentSelector)
        ensures
            selector.0 == (index % 8192) * 8 + privilege_level.number(),
            selector.spec_index() == index % 8192,
            selector.spec_privilege_level() == privilege_level,
    {
        let rpl: u16 = privilege_level.as_u16();
        let selector = SegmentSelector(index << 3 | rpl);
        assert((index << 3 | rpl) == (index % 8192) * 8 + rpl) by (bit_vector)
            requires
                rpl <= 3,
        ;
        selector
    }

    /// The descriptor index.
    pub fn index(self) -> (index: u16)
        ensures
            index == self.spec_index(),
    {
        let raw: u16 = self.0;
        assert(raw >> 3 == raw / 8) by (bit_vector);
        raw >> 3
    }

    /// The requested privilege level.
    pub fn privilege_level(self) -> (level: PrivilegeLevel)
        ensures
            level == self.spec_privilege_level(),
    {
        let bits = get_bits_u16(self.0, 0, 2);
        proof {
            lemma2_to64();
            assert(bit_range(self.0 as nat, 0, 2) == (self.0 as nat / 1) % 4);
        }
        PrivilegeLevel::from_u16(bits)
    }
}

} // verus!
