//! Collecting the firmware's map of physical memory.
//!
//! The firmware hands out one region per call and a number with which to
//! ask for the next; the number 0 comes back with the last region. Making
//! the calls is the caller's part. What a reply means, and when the map is
//! complete, is decided here.

use crate::boot_info::E820MemoryRegion;
use crate::bytes::{le_u32, le_u64, read_le_u32, read_le_u64};
use vstd::prelude::*;

verus! {

/// The signature that the firmware returns with every reply.
pub const E820_MAGIC_NUMBER: u32 = 0x534D_4150;

/// The function number of the memory map query.
pub const E820_FUNCTION: u32 = 0xE820;

/// The size of the buffer that the firmware writes a region to.
pub const E820_BUFFER_LEN: usize = 24;

/// The number of written bytes from which on a region is complete enough
/// to be read.
pub const E820_RECORD_LEN: u32 = 20;

/// The number of regions that the map can hold.
pub const MEMORY_MAP_CAPACITY: usize = 100;

/// What the firmware returned from one call.
#[derive(Clone, Copy, Debug)]
pub struct E820Reply {
    /// The signature.
    pub signature: u32,
    /// The number with which to ask for the next region, 0 after the last.
    pub next_offset: u32,
    /// The number of bytes that the firmware wrote.
    pub written: u32,
    /// The buffer that the firmware wrote to.
    pub buffer: [u8; 24],
}

/// Why the map could not be collected.
#[derive(Clone, Copy, Debug, PartialEq, Eq, Structural)]
pub enum MemoryMapError {
    /// A reply came without the signature.
    BadSignature,
    /// A reply held part of a region only, or more bytes than the buffer has.
    MalformedRecord,
    /// The firmware offers more regions than the map can hold.
    MapFull,
    /// The firmware did not come to an end within the calls allowed.
    TooManyQueries,
}

/// The region in the first 20 or 24 bytes of `buffer`: start and length of
/// eight bytes each, the type of four, and, where all 24 bytes were written,
/// the extended attributes, which are 0 otherwise.
pub open spec fn region_of(buffer: Seq<u8>, written: u32) -> E820MemoryRegion {
    E820MemoryRegion {
        start_addr: le_u64(buffer, 0) as u64,
        len: le_u64(buffer, 8) as u64,
        region_type: le_u32(buffer, 16) as u32,
        acpi_extended_attributes: if written == 24 {
            le_u32(buffer, 20) as u32
        } else {
            0
        },
    }
}

/// What a reply contributes to the map: a region, nothing, or a failure.
///
/// A reply without the signature fails. A reply of no bytes contributes
/// nothing. A reply of fewer than 20 or more than 24 bytes fails. A region
/// of length 0 contributes nothing.
pub open spec fn reply_outcome(reply: E820Reply) -> Result<Option<E820MemoryRegion>, MemoryMapError> {
    if reply.signature != E820_MAGIC_NUMBER {
        Err(MemoryMapError::BadSignature)
    } else if reply.written == 0 {
        Ok(None)
    } else if reply.written < E820_RECORD_LEN || reply.written > 24 {
        Err(MemoryMapError::MalformedRecord)
    } else if region_of(reply.buffer@, reply.written).len == 0 {
        Ok(None)
    } else {
        Ok(Some(region_of(reply.buffer@, reply.written)))
    }
}

/// Tells what `reply` contributes to the map.
pub fn read_reply(reply: &E820Reply) -> (r: Result<Option<E820MemoryRegion>, MemoryMapError>)
    ensures
        r == reply_outcome(*reply),
{
    if reply.signature != E820_MAGIC_NUMBER {
        return Err(MemoryMapError::BadSignature);
    }
    if reply.written == 0 {
        return Ok(None);
    }
    if reply.written < E820_RECORD_LEN || reply.written > 24 {
        return Err(MemoryMapError::MalformedRecord);
    }
    let buffer = reply.buffer.as_slice();
    let len: u64 = read_le_u64(buffer, 8);
    if len == 0 {
        return Ok(None);
    }
    let attributes: u32 = if reply.written == 24 {
        read_le_u32(buffer, 20)
    } else {
        0
    };
    Ok(
        Some(
            E820MemoryRegion {
                start_addr: read_le_u64(buffer, 0),
                len,
                region_type: read_le_u32(buffer, 16),
                acpi_extended_attributes: attributes,
            },
        ),
    )
}

/// The state of a collection: the regions so far, how many the map can
/// hold, and how many calls may still be made.
#[derive(Debug)]
pub struct MemoryMapCollector {
    /// The regions collected, in the order in which the firmware gave them.
    pub regions: Vec<E820MemoryRegion>,
    /// The number of regions that the map can hold.
    pub capacity: usize,
    /// The number of replies that may still be taken.
    pub queries_left: usize,
}

/// What to do after a reply.
#[derive(Clone, Copy, Debug, PartialEq, Eq, Structural)]
pub enum Progress {
    /// Ask the firmware again, with this number.
    Continue(u32),
    /// The map is complete.
    Done,
}

impl MemoryMapCollector {
    /// The collection before the first call, for a map of `capacity`
    /// regions, which gives up after `max_queries` replies.
    pub fn new(capacity: usize, max_queries: usize) -> (collector: MemoryMapCollector)
        ensures
            collector.regions@ == Seq::<E820MemoryRegion>::empty(),
            collector.capacity == capacity,
            collector.queries_left == max_queries,
            collector.wf(),
    {
        MemoryMapCollector { regions: Vec::new(), capacity, queries_left: max_queries }
    }

    /// Whether the map holds no more regions than it can, and no region of
    /// length 0.
    pub open spec fn wf(self) -> bool {
        &&& self.regions@.len() <= self.capacity
        &&& forall|i: int| 0 <= i < self.regions@.len() ==> (#[trigger] self.regions@[i]).len != 0
    }

    /// What taking `reply` gives, and the regions after it.
    ///
    /// A collection that has no call left fails. Else the reply is read; a
    /// region is added to the map, or makes the collection fail where the
    /// map is full. The collection is complete when the firmware's next
    /// number is 0, and else goes on with that number.
    pub open spec fn step(self, reply: E820Reply) -> (
        Result<Progress, MemoryMapError>,
        Seq<E820MemoryRegion>,
    ) {
        let next = if reply.next_offset == 0 {
            Progress::Done
        } else {
            Progress::Continue(reply.next_offset)
        };
        if self.queries_left == 0 {
            (Err(MemoryMapError::TooManyQueries), self.regions@)
        } else {
            match reply_outcome(reply) {
                Err(error) => (Err(error), self.regions@),
                Ok(None) => (Ok(next), self.regions@),
                Ok(Some(region)) => if self.regions@.len() >= self.capacity {
                    (Err(MemoryMapError::MapFull), self.regions@)
                } else {
                    (Ok(next), self.regions@.push(region))
                },
            }
        }
    }

    /// Takes one reply of the firmware into the collection.
    pub fn record(&mut self, reply: &E820Reply) -> (r: Result<Progress, MemoryMapError>)
        requires
            old(self).wf(),
        ensures
            final(self).wf(),
            final(self).capacity == old(self).capacity,
            r == old(self).step(*reply).0,
            final(self).regions@ == old(self).step(*reply).1,
            r is Ok ==> final(self).queries_left == old(self).queries_left - 1,
            r is Err ==> final(self).queries_left == old(self).queries_left,
    {
        if self.queries_left == 0 {
            return Err(MemoryMapError::TooManyQueries);
        }
        match read_reply(reply)? {
            None => {},
            Some(region) => {
                if self.regions.len() >= self.capacity {
                    return Err(MemoryMapError::MapFull);
                }
                self.regions.push(region);
            },
        }
        self.queries_left = self.queries_left - 1;
        if reply.next_offset == 0 {
            Ok(Progress::Done)
        } else {
            Ok(Progress::Continue(reply.next_offset))
        }
    }
}

/// What collecting the map gives from a firmware that answers the query
/// with the number `offset` by `firmware[offset]`, and without signature
/// for any other number: the regions, or the failure.
///
/// `taken` are the regions already in the map, `budget` the number of
/// replies that may still be taken.
pub open spec fn collected(
    firmware: Seq<E820Reply>,
    offset: u32,
    taken: Seq<E820MemoryRegion>,
    capacity: usize,
    budget: nat,
) -> Result<Seq<E820MemoryRegion>, MemoryMapError>
    decreases budget,
{
    if offset >= firmware.len() {
        Err(MemoryMapError::BadSignature)
    } else if budget == 0 {
        Err(MemoryMapError::TooManyQueries)
    } else {
        let reply = firmware[offset as int];
        match reply_outcome(reply) {
            Err(error) => Err(error),
            Ok(found) => {
                let full = found is Some && taken.len() >= capacity;
                let regions = if found is Some {
                    taken.push(found->Some_0)
                } else {
                    taken
                };
                if full {
                    Err(MemoryMapError::MapFull)
                } else if reply.next_offset == 0 {
                    Ok(regions)
                } else {
                    collected(firmware, reply.next_offset, regions, capacity, (budget - 1) as nat)
                }
            },
        }
    }
}

/// Collects the memory map from a simulated firmware: one that answers the
/// query with the number `n` by `firmware[n]`, and without signature for a
/// number that it has no reply for.
///
/// The first query has the number 0. No more replies are taken than the
/// firmware has, so a firmware whose numbers run in a circle makes the
/// collection fail instead of going on for ever. No region of the result has
/// the length 0, and there are at most `capacity` regions.
pub fn query_memory_map(firmware: &[E820Reply], capacity: usize) -> (r: Result<
    Vec<E820MemoryRegion>,
    MemoryMapError,
>)
    ensures
        match collected(
            firmware@,
            0,
            Seq::<E820MemoryRegion>::empty(),
            capacity,
            firmware@.len(),
        ) {
            Ok(regions) => r is Ok && r->Ok_0@ == regions,
            Err(error) => r == Err::<Vec<E820MemoryRegion>, MemoryMapError>(error),
        },
        r is Ok ==> r->Ok_0@.len() <= capacity && forall|i: int|
            0 <= i < r->Ok_0@.len() ==> (#[trigger] r->Ok_0@[i]).len != 0,
{
    let mut collector = MemoryMapCollector::new(capacity, firmware.len());
    let mut offset: u32 = 0;
    let ghost whole = collected(
        firmware@,
        0,
        Seq::<E820MemoryRegion>::empty(),
        capacity,
        firmware@.len(),
    );
    loop
        invariant
            collector.wf(),
            collector.capacity == capacity,
            whole == collected(
                firmware@,
                offset,
                collector.regions@,
                capacity,
                collector.queries_left as nat,
            ),
            whole == collected(
                firmware@,
                0,
                Seq::<E820MemoryRegion>::empty(),
                capacity,
                firmware@.len(),
            ),
        decreases collector.queries_left,
    {
        if offset as usize >= firmware.len() {
            return Err(MemoryMapError::BadSignature);
        }
        let reply = &firmware[offset as usize];
        match collector.record(reply) {
            Err(error) => {
                return Err(error);
            },
            Ok(Progress::Done) => {
                return Ok(collector.regions);
            },
            Ok(Progress::Continue(next)) => {
                offset = next;
            },
        }
    }
}

} // verus!
