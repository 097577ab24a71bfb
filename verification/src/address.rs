//! Physical and virtual addresses.

use crate::bits::{bit_range, get_bits_u64};
use vstd::arithmetic::power2::{lemma2_to64, lemma2_to64_rest};
use vstd::prelude::*;

verus! {

/// The one bit that `PhysAddr::new_truncate` keeps.
pub const PHYS_ADDR_KEPT_BITS: u64 = 0x10_0000_0000_0000;

/// What `PhysAddr::new_truncate` keeps of `addr`.
pub open spec fn phys_truncated(addr: u64) -> u64 {
    addr & PHYS_ADDR_KEPT_BITS
}

/// Whether `addr` is a value that a `PhysAddr` can hold: one that truncation
/// leaves as it is.
pub open spec fn phys_valid(addr: u64) -> bool {
    phys_truncated(addr) == addr
}

/// A physical memory address.
#[derive(Clone, Copy, Debug, PartialEq, Eq, PartialOrd, Ord, Hash, Structural)]
pub struct PhysAddr(u64);

/// The value that was refused as a physical address.
#[derive(Clone, Copy, Debug, PartialEq, Eq, Structural)]
pub struct PhysAddrNotValid(pub u64);

impl PhysAddr {
    #[verifier::type_invariant]
    spec fn well_formed(self) -> bool {
        phys_valid(self.0)
    }

    /// The address as a number.
    pub closed spec fn view(self) -> u64 {
        self.0
    }

    /// The address `addr`, which has to be valid.
    pub fn new(addr: u64) -> (p: PhysAddr)
        requires
            phys_valid(addr),
        ensures
            p@ == addr,
    {
        PhysAddr(addr)
    }

    /// The address that truncation makes of `addr`.
    pub fn new_truncate(addr: u64) -> (p: PhysAddr)
        ensures
            p@ == phys_truncated(addr),
    {
        assert((addr & 0x10_0000_0000_0000) & 0x10_0000_0000_0000 == addr & 0x10_0000_0000_0000)
            by (bit_vector);
        PhysAddr(addr & PHYS_ADDR_KEPT_BITS)
    }

    /// The address `addr` if it is valid, else the refused value.
    pub fn try_new(addr: u64) -> (r: Result<PhysAddr, PhysAddrNotValid>)
        ensures
            r is Ok <==> phys_valid(addr),
            r is Ok ==> r->Ok_0@ == addr,
            r is Err ==> r->Err_0 == PhysAddrNotValid(addr),
    {
        let p = Self::new_truncate(addr);
        if p.0 == addr {
            Ok(p)
        } else {
            Err(PhysAddrNotValid(addr))
        }
    }

    /// The address as a number.
    pub fn as_u64(self) -> (addr: u64)
        ensures
            addr == self@,
            phys_valid(addr),
    {
        proof {
            use_type_invariant(&self);
        }
        self.0
    }
}

/// Bits 47 to 63 of `addr`, as a number below 2^17.
pub open spec fn virt_high_bits(addr: u64) -> int {
    addr as int / 0x8000_0000_0000
}

/// Whether `addr` is canonical: bits 47 to 63 are all clear or all set.
pub open spec fn virt_canonical(addr: u64) -> bool {
    virt_high_bits(addr) == 0 || virt_high_bits(addr) == 0x1ffff
}

/// Whether `VirtAddr::try_new` takes `addr`: it is canonical, or only bit 47
/// of its upper bits is set, so that sign extension repairs it.
pub open spec fn virt_accepted(addr: u64) -> bool {
    virt_canonical(addr) || virt_high_bits(addr) == 1
}

/// The low 48 bits of `addr`, with bit 47 copied into bits 48 to 63.
pub open spec fn virt_sign_extended(addr: u64) -> u64 {
    let low = addr as int % 0x1_0000_0000_0000;
    if virt_high_bits(addr) % 2 == 1 {
        (low + 0xffff_0000_0000_0000) as u64
    } else {
        low as u64
    }
}

/// A canonical virtual memory address.
#[derive(Clone, Copy, Debug, PartialEq, Eq, PartialOrd, Ord, Hash, Structural)]
pub struct VirtAddr(u64);

/// The value that was refused as a virtual address.
#[derive(Clone, Copy, Debug, PartialEq, Eq, Structural)]
pub struct VirtAddrNotValid(pub u64);

impl VirtAddr {
    #[verifier::type_invariant]
    spec fn well_formed(self) -> bool {
        virt_canonical(self.0)
    }

    /// The address as a number.
    pub closed spec fn view(self) -> u64 {
        self.0
    }

    /// The address that `addr` stands for, which `try_new` has to accept.
    pub fn new(addr: u64) -> (v: VirtAddr)
        requires
            virt_accepted(addr),
        ensures
            v@ == virt_sign_extended(addr),
            virt_canonical(addr) ==> v@ == addr,
    {
        proof {
            lemma_sign_extension(addr);
        }
        Self::new_truncate(addr)
    }

    /// The canonical address with the low 48 bits of `addr`.
    pub fn new_truncate(addr: u64) -> (v: VirtAddr)
        ensures
            v@ == virt_sign_extended(addr),
    {
        let low: u64 = addr & 0x0000_ffff_ffff_ffff;
        let sign: u64 = addr & 0x8000_0000_0000;
        let extended: u64 = low | 0xffff_0000_0000_0000;
        proof {
            assert(low == addr % 0x1_0000_0000_0000) by (bit_vector)
                requires
                    low == addr & 0x0000_ffff_ffff_ffff,
            ;
            assert((sign != 0) <==> (addr / 0x8000_0000_0000) % 2 == 1) by (bit_vector)
                requires
                    sign == addr & 0x8000_0000_0000,
            ;
            assert(extended == low + 0xffff_0000_0000_0000) by (bit_vector)
                requires
                    low == addr & 0x0000_ffff_ffff_ffff,
                    extended == low | 0xffff_0000_0000_0000,
            ;
            lemma_sign_extension(addr);
        }
        if sign != 0 {
            VirtAddr(extended)
        } else {
            VirtAddr(low)
        }
    }

    /// The address that `addr` stands for, or the refused value. A canonical
    /// `addr` is kept; one whose upper bits hold bit 47 alone is sign
    /// extended; any other is refused.
    pub fn try_new(addr: u64) -> (r: Result<VirtAddr, VirtAddrNotValid>)
        ensures
            r is Ok <==> virt_accepted(addr),
            r is Ok ==> r->Ok_0@ == virt_sign_extended(addr),
            r is Ok && virt_canonical(addr) ==> r->Ok_0@ == addr,
            r is Err ==> r->Err_0 == VirtAddrNotValid(addr),
    {
        let high = get_bits_u64(addr, 47, 64);
        proof {
            lemma2_to64();
            lemma2_to64_rest();
            assert(bit_range(addr as nat, 47, 64) == (addr as nat / 0x8000_0000_0000) % 0x20000);
            assert(addr / 0x8000_0000_0000 < 0x20000) by (bit_vector);
            assert(high == virt_high_bits(addr));
            lemma_sign_extension(addr);
        }
        if high == 0 || high == 0x1ffff {
            Ok(VirtAddr(addr))
        } else if high == 1 {
            Ok(VirtAddr::new_truncate(addr))
        } else {
            Err(VirtAddrNotValid(addr))
        }
    }

    /// The address as a number.
    pub fn as_u64(self) -> (addr: u64)
        ensures
            addr == self@,
            virt_canonical(addr),
    {
        proof {
            use_type_invariant(&self);
        }
        self.0
    }
}

/// Sign extension gives a canonical address, and leaves a canonical address
/// as it is.
pub proof fn lemma_sign_extension(addr: u64)
    ensures
        virt_canonical(virt_sign_extended(addr)),
        virt_canonical(addr) ==> virt_sign_extended(addr) == addr,
        virt_sign_extended(virt_sign_extended(addr)) == virt_sign_extended(addr),
{
    let low: u64 = addr % 0x1_0000_0000_0000;
    let high: u64 = addr / 0x8000_0000_0000;
    let extended: u64 = virt_sign_extended(addr);
    assert(high % 2 == 1 ==> low + 0xffff_0000_0000_0000 <= 0xffff_ffff_ffff_ffff
        && (low + 0xffff_0000_0000_0000) / 0x8000_0000_0000 == 0x1ffff) by (bit_vector)
        requires
            low == addr % 0x1_0000_0000_0000,
            high == addr / 0x8000_0000_0000,
    ;
    assert(high % 2 != 1 ==> low / 0x8000_0000_0000 == 0) by (bit_vector)
        requires
            low == addr % 0x1_0000_0000_0000,
            high == addr / 0x8000_0000_0000,
    ;
    assert(high == 0 ==> low == addr) by (bit_vector)
        requires
            low == addr % 0x1_0000_0000_0000,
            high == addr / 0x8000_0000_0000,
    ;
    assert(high == 0x1ffff ==> low + 0xffff_0000_0000_0000 == addr) by (bit_vector)
        requires
            low == addr % 0x1_0000_0000_0000,
            high == addr / 0x8000_0000_0000,
    ;
    assert((extended / 0x8000_0000_0000 == 0 || extended / 0x8000_0000_0000 == 0x1ffff) ==> (
    if (extended / 0x8000_0000_0000) % 2 == 1 {
        extended % 0x1_0000_0000_0000 + 0xffff_0000_0000_0000 == extended
    } else {
        extended % 0x1_0000_0000_0000 == extended
    })) by (bit_vector);
}

} // verus!
