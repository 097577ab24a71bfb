//! What the last stage makes of the memory map.

use crate::boot_info::E820MemoryRegion;
use vstd::prelude::*;

verus! {

/// The number of bytes of a gibibyte.
pub const GIGABYTE: u64 = 0x4000_0000;

/// The highest address that the stages use: they ran with addresses of 32
/// bits.
pub const ADDRESS_CEILING: u64 = 0x1_0000_0000;

/// Whether the regions stand in the order of their start addresses.
pub open spec fn sorted_by_start(regions: Seq<E820MemoryRegion>) -> bool {
    forall|i: int, j: int|
        0 <= i <= j < regions.len() ==> (#[trigger] regions[i]).start_addr <= (
        #[trigger] regions[j]).start_addr
}

/// Calls `sort_unstable_by_key` of the standard library on `regions`, with
/// the start address as the key.
///
/// Trusted: afterwards the regions are taken to be the same regions, each as
/// often as before, in the order of their start addresses. Which of two
/// regions with one start address comes first is left open.
#[verifier::external_body]
fn sort_by_start(regions: &mut Vec<E820MemoryRegion>)
    ensures
        final(regions)@.to_multiset() == old(regions)@.to_multiset(),
        sorted_by_start(final(regions)@),
{
    regions.sort_unstable_by_key(|region| region.start_addr);
}

/// Puts the memory map into the order of the regions' start addresses.
pub fn sort_memory_map(regions: &mut Vec<E820MemoryRegion>)
    ensures
        final(regions)@.to_multiset() == old(regions)@.to_multiset(),
        final(regions)@.len() == old(regions)@.len(),
        sorted_by_start(final(regions)@),
{
    let ghost before = regions@;
    sort_by_start(regions);
    proof {
        before.to_multiset_ensures();
        regions@.to_multiset_ensures();
    }
}

/// The address behind the last byte of `region`.
pub open spec fn region_end(region: E820MemoryRegion) -> int {
    region.start_addr + region.len
}

/// The greatest end of a region of `regions`, and 0 where there is none.
pub open spec fn max_end(regions: Seq<E820MemoryRegion>) -> int
    decreases regions.len(),
{
    if regions.len() == 0 {
        0
    } else {
        let before = max_end(regions.drop_last());
        if region_end(regions.last()) > before {
            region_end(regions.last())
        } else {
            before
        }
    }
}

/// The highest physical address to use: the greatest end of a region, but
/// no more than 4 GiB. There is none for a map without regions.
pub fn max_physical_address(regions: &[E820MemoryRegion]) -> (address: Option<u64>)
    ensures
        regions@.len() == 0 <==> address is None,
        address is Some ==> address->Some_0 == if max_end(regions@) < ADDRESS_CEILING {
            max_end(regions@)
        } else {
            ADDRESS_CEILING as int
        },
        forall|i: int|
            0 <= i < regions@.len() ==> region_end(#[trigger] regions@[i]) <= max_end(regions@),
        regions@.len() > 0 ==> exists|i: int|
            0 <= i < regions@.len() && region_end(#[trigger] regions@[i]) == max_end(regions@),
{
    proof {
        lemma_max_end(regions@);
    }
    if regions.len() == 0 {
        return None;
    }
    let mut highest: u64 = 0;
    let mut i: usize = 0;
    assert(regions@.subrange(0, 0) =~= Seq::<E820MemoryRegion>::empty());
    while i < regions.len()
        invariant
            i <= regions@.len(),
            highest <= ADDRESS_CEILING,
            highest == if max_end(regions@.subrange(0, i as int)) < ADDRESS_CEILING {
                max_end(regions@.subrange(0, i as int))
            } else {
                ADDRESS_CEILING as int
            },
        decreases regions@.len() - i,
    {
        proof {
            let next = regions@.subrange(0, i + 1);
            assert(next.drop_last() =~= regions@.subrange(0, i as int));
            assert(next.last() == regions@[i as int]);
        }
        let region = &regions[i];
        let end: u64 = if region.len > ADDRESS_CEILING || region.start_addr > ADDRESS_CEILING {
            ADDRESS_CEILING
        } else if region.start_addr + region.len > ADDRESS_CEILING {
            ADDRESS_CEILING
        } else {
            region.start_addr + region.len
        };
        if end > highest {
            highest = end;
        }
        i += 1;
    }
    assert(regions@.subrange(0, i as int) =~= regions@);
    Some(highest)
}

/// The greatest end of a region is the end of one of the regions, and no
/// region ends behind it.
pub proof fn lemma_max_end(regions: Seq<E820MemoryRegion>)
    ensures
        forall|i: int| 0 <= i < regions.len() ==> region_end(#[trigger] regions[i]) <= max_end(regions),
        regions.len() > 0 ==> exists|i: int|
            0 <= i < regions.len() && region_end(#[trigger] regions[i]) == max_end(regions),
    decreases regions.len(),
{
    if regions.len() > 0 {
        let front = regions.drop_last();
        lemma_max_end(front);
        assert forall|i: int| 0 <= i < regions.len() implies region_end(#[trigger] regions[i])
            <= max_end(regions) by {
            if i < front.len() {
                assert(front[i] == regions[i]);
            }
        }
        if region_end(regions.last()) > max_end(front) || front.len() == 0 {
            assert(region_end(regions[regions.len() - 1]) == max_end(regions));
        } else {
            let at = choose|i: int|
                0 <= i < front.len() && region_end(#[trigger] front[i]) == max_end(front);
            assert(front[at] == regions[at]);
        }
    }
}

} // verus!
