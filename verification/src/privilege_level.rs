//! CPU protection rings.

use vstd::prelude::*;

verus! {

/// One of the four protection rings of the processor.
#[derive(Clone, Copy, Debug, PartialEq, Eq, Structural)]
pub enum PrivilegeLevel {
    /// Most privileged: firmware, memory management, interrupt handlers.
    Ring0,
    /// Moderately privileged system software, as the operating system defines it.
    Ring1,
    /// Like `Ring1`.
    Ring2,
    /// Least privileged: applications.
    Ring3,
}

impl PrivilegeLevel {
    /// The ring's number, 0 to 3.
    pub open spec fn number(self) -> u16 {
        match self {
            PrivilegeLevel::Ring0 => 0,
            PrivilegeLevel::Ring1 => 1,
            PrivilegeLevel::Ring2 => 2,
            PrivilegeLevel::Ring3 => 3,
        }
    }

    /// The ring with the given number.
    pub open spec fn of_number(value: u16) -> PrivilegeLevel {
        if value == 0 {
            PrivilegeLevel::Ring0
        } else if value == 1 {
            PrivilegeLevel::Ring1
        } else if value == 2 {
            PrivilegeLevel::Ring2
        } else {
            PrivilegeLevel::Ring3
        }
    }

    /// The ring numbered `value`. Only 0 to 3 name a ring.
    pub fn from_u16(value: u16) -> (level: PrivilegeLevel)
        requires
            value <= 3,
        ensures
            level == Self::of_number(value),
            level.number() == value,
    {
        match value {
            0 => PrivilegeLevel::Ring0,
            1 => PrivilegeLevel::Ring1,
            2 => PrivilegeLevel::Ring2,
            _ => PrivilegeLevel::Ring3,
        }
    }

    /// The ring's number.
    pub fn as_u16(self) -> (value: u16)
        ensures
            value == self.number(),
            value <= 3,
    {
        match self {
            PrivilegeLevel::Ring0 => 0,
            PrivilegeLevel::Ring1 => 1,
            PrivilegeLevel::Ring2 => 2,
            PrivilegeLevel::Ring3 => 3,
        }
    }
}

} // verus!
