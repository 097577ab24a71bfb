//! A disk held in memory that answers the firmware's read requests.
//!
//! It stands in for the firmware wherever no firmware is at hand, and it is
//! what shows that the requests of a chunked read, carried out one by one,
//! deliver the bytes that were asked for.

use crate::disk_access::{
    lemma_after_step, AlignedBuffer, DiskAccess, DiskAccessPacket, Read, ReadError, Seek,
    SeekFrom,
};
use vstd::prelude::*;
use vstd::slice::{slice_subrange, slice_to_vec};

verus! {

/// `memory` with `data` stored from index `at` on.
pub open spec fn overwrite(memory: Seq<u8>, at: int, data: Seq<u8>) -> Seq<u8> {
    Seq::new(
        memory.len(),
        |i: int|
            if at <= i < at + data.len() {
                data[i - at]
            } else {
                memory[i]
            },
    )
}

/// A disk whose bytes lie in memory, with a cursor on the partition that
/// starts with sector `base_lba`.
#[derive(Clone, Debug)]
pub struct MemoryDisk {
    /// All bytes of the disk.
    pub image: Vec<u8>,
    /// The firmware's number of the disk.
    pub disk_number: u16,
    /// The first sector of the partition.
    pub base_lba: u32,
    /// The cursor, counted from the start of the partition.
    pub current_offset: u64,
}

impl MemoryDisk {
    /// The cursor as the disk access layer holds it.
    pub open spec fn access(self) -> DiskAccess {
        DiskAccess {
            disk_number: self.disk_number,
            base_offset: (self.base_lba * 512) as u64,
            current_offset: self.current_offset,
        }
    }

    /// The disk with the bytes `image`, known to the firmware as
    /// `disk_number`, with a cursor at the start of the partition that begins
    /// with sector `base_lba`.
    pub fn new(image: Vec<u8>, disk_number: u16, base_lba: u32) -> (disk: MemoryDisk)
        ensures
            disk == (MemoryDisk { image, disk_number, base_lba, current_offset: 0 }),
    {
        MemoryDisk { image, disk_number, base_lba, current_offset: 0 }
    }

    /// The cursor as the disk access layer holds it.
    pub fn cursor(&self) -> (access: DiskAccess)
        ensures
            access == self.access(),
    {
        let mut access = DiskAccess::for_partition(self.disk_number, self.base_lba);
        access.current_offset = self.current_offset;
        access
    }

    /// The number of bytes from the start of the partition to the end of the
    /// disk.
    pub fn medium_len(&self) -> (len: u64)
        ensures
            len == self.medium().len(),
    {
        let base: u64 = self.base_lba as u64 * 512;
        let len: usize = self.image.len();
        if base <= len as u64 {
            len as u64 - base
        } else {
            0
        }
    }

    /// Carries out one firmware request: copies the sectors that `packet`
    /// names to the address that it names in `memory`, which stands for the
    /// machine's memory from address 0 on.
    ///
    /// The request fails, and leaves the memory as it is, if the disk does
    /// not hold all the sectors or the memory ends before the last byte.
    pub fn extended_read(&self, packet: &DiskAccessPacket, memory: &mut [u8]) -> (ok: bool)
        ensures
            ok <==> (packet.start_lba + packet.num_sectors) * 512 <= self.image@.len()
                && packet.target() + packet.num_sectors * 512 <= old(memory)@.len(),
            ok ==> final(memory)@ == overwrite(
                old(memory)@,
                packet.target(),
                self.image@.subrange(
                    packet.start_lba * 512,
                    (packet.start_lba + packet.num_sectors) * 512,
                ),
            ),
            !ok ==> final(memory)@ == old(memory)@,
    {
        let sectors: u64 = packet.num_sectors as u64;
        let disk_len: usize = self.image.len();
        let disk_sectors: u64 = (disk_len / 512) as u64;
        if packet.start_lba > disk_sectors || sectors > disk_sectors - packet.start_lba {
            return false;
        }
        let count: usize = packet.num_sectors as usize * 512;
        let target: usize = packet.segment as usize * 16 + packet.offset as usize;
        let memory_len: usize = memory.len();
        if target > memory_len || count > memory_len - target {
            return false;
        }
        let source: usize = (packet.start_lba * 512) as usize;
        let ghost before = memory@;
        let ghost data = self.image@.subrange(source as int, source + count);
        let mut i: usize = 0;
        while i < count
            invariant
                i <= count,
                disk_len == self.image@.len(),
                memory_len == memory@.len(),
                source + count <= disk_len,
                target + count <= memory_len,
                memory@.len() == before.len(),
                data == self.image@.subrange(source as int, source + count),
                forall|j: int| 0 <= j < target ==> memory@[j] == before[j],
                forall|j: int| target <= j < target + i ==> memory@[j] == data[j - target],
                forall|j: int| target + i <= j < memory@.len() ==> memory@[j] == before[j],
            decreases count - i,
        {
            memory[target + i] = self.image[source + i];
            i += 1;
        }
        assert(memory@ =~= overwrite(before, target as int, data));
        true
    }

    /// Stores `data` on the medium from the cursor on and moves the cursor to
    /// its end, if the medium has room for it; else changes nothing.
    pub fn write_all(&mut self, data: &[u8]) -> (r: Result<(), ReadError>)
        ensures
            r is Ok <==> old(self).position() + data@.len() <= old(self).medium().len(),
            r is Ok ==> final(self).medium() == overwrite(
                old(self).medium(),
                old(self).position() as int,
                data@,
            ) && *final(self) == (MemoryDisk {
                image: final(self).image,
                current_offset: (old(self).current_offset + data@.len()) as u64,
                ..*old(self)
            }) && final(self).image@ == overwrite(
                old(self).image@,
                old(self).access().absolute(),
                data@,
            ),
            r is Err ==> *final(self) == *old(self),
    {
        let len: usize = data.len();
        let available: u64 = self.medium_len();
        if self.current_offset > available || len as u64 > available - self.current_offset {
            return Err(ReadError::Device);
        }
        if len == 0 {
            assert(self.medium() =~= overwrite(
                old(self).medium(),
                old(self).position() as int,
                data@,
            ));
            assert(self.image@ =~= overwrite(
                old(self).image@,
                old(self).access().absolute(),
                data@,
            ));
            return Ok(());
        }
        let disk_len: usize = self.image.len();
        let start: usize = (self.base_lba as u64 * 512 + self.current_offset) as usize;
        let ghost before = self.image@;
        let mut i: usize = 0;
        while i < len
            invariant
                i <= len,
                len == data@.len(),
                disk_len == self.image@.len(),
                start + len <= disk_len,
                self.image@.len() == before.len(),
                self.disk_number == old(self).disk_number,
                self.base_lba == old(self).base_lba,
                self.current_offset == old(self).current_offset,
                forall|j: int| 0 <= j < start ==> self.image@[j] == before[j],
                forall|j: int| start <= j < start + i ==> self.image@[j] == data@[j - start],
                forall|j: int| start + i <= j < before.len() ==> self.image@[j] == before[j],
            decreases len - i,
        {
            self.image.set(start + i, data[i]);
            i += 1;
        }
        self.current_offset = self.current_offset + len as u64;
        assert(self.image@ =~= overwrite(before, old(self).access().absolute(), data@));
        assert(self.medium() =~= overwrite(
            old(self).medium(),
            old(self).position() as int,
            data@,
        ));
        Ok(())
    }
}

impl Seek for MemoryDisk {
    open spec fn position(&self) -> u64 {
        self.current_offset
    }

    open spec fn moved_to(&self, offset: u64) -> MemoryDisk {
        MemoryDisk {
            image: self.image,
            disk_number: self.disk_number,
            base_lba: self.base_lba,
            current_offset: offset,
        }
    }

    fn seek(&mut self, pos: SeekFrom) -> (offset: u64) {
        match pos {
            SeekFrom::Start(offset) => {
                self.current_offset = offset;
                offset
            },
        }
    }
}

impl Read for MemoryDisk {
    open spec fn medium(&self) -> Seq<u8> {
        if self.base_lba * 512 <= self.image@.len() {
            self.image@.subrange(self.base_lba * 512, self.image@.len() as int)
        } else {
            Seq::empty()
        }
    }

    proof fn lemma_seek_keeps_medium(&self, offset: u64) {
    }

    fn read_exact(&mut self, len: usize) -> (r: Result<Vec<u8>, ReadError>) {
        let disk_len: usize = self.image.len();
        let disk_sectors: u64 = (disk_len / 512) as u64;
        let first: u64 = self.base_lba as u64 + self.current_offset / 512;
        if first > disk_sectors || 2 > disk_sectors - first {
            return Err(ReadError::Device);
        }
        let ghost before = *self;
        let mut access = self.cursor();
        let (mut request, skip) = access.read_exact(len, 0);
        self.current_offset = access.current_offset;
        let mut scratch: [u8; 1024] = [0u8; 1024];
        match request.next_packet() {
            Ok(Some(packet)) => {
                let ok = self.extended_read(&packet, &mut scratch);
                assert(ok);
            },
            _ => {},
        }
        let window = scratch.as_slice();
        let bytes = slice_to_vec(slice_subrange(window, skip, skip + len));
        assert(bytes@ =~= before.medium().subrange(
            before.position() as int,
            before.position() + len,
        ));
        Ok(bytes)
    }

    fn read_exact_into<B: AlignedBuffer>(&mut self, len: usize, buf: &mut B) -> (r: Result<
        (),
        ReadError,
    >) {
        let available: u64 = self.medium_len();
        if self.current_offset > available || len as u64 > available - self.current_offset {
            return Err(ReadError::Device);
        }
        if len == 0 {
            assert(buf.view() =~= self.medium().subrange(
                self.position() as int,
                self.position() + len,
            ) + buf.view().subrange(len as int, buf.view().len() as int));
            return Ok(());
        }
        let disk_len: usize = self.image.len();
        let ghost before = *self;
        let ghost source = before.access().absolute();
        assert(source + len <= disk_len);
        let ghost sectors = len as int / 512;
        let mut access = self.cursor();
        let mut request = access.read_exact_into(len, 0);
        self.current_offset = access.current_offset;
        let ghost initial = request;
        let memory = buf.slice_mut();
        let ghost untouched = memory@;
        let ghost mut issued: int = 0;
        assert(memory@ =~= overwrite(untouched, 0, self.image@.subrange(source, source)));
        loop
            invariant
                initial.in_range(),
                initial.addressable(),
                initial.target_addr == 0,
                initial.next_lba == source / 512,
                initial.remaining == sectors,
                source % 512 == 0,
                sectors * 512 == len,
                len <= untouched.len(),
                source + len <= self.image@.len(),
                0 <= issued <= initial.packet_count(),
                request == initial.after(issued),
                memory@ == overwrite(
                    untouched,
                    0,
                    self.image@.subrange(source, source + 512 * (sectors - request.remaining)),
                ),
            ensures
                memory@ == overwrite(untouched, 0, self.image@.subrange(source, source + len)),
            decreases initial.packet_count() - issued,
        {
            proof {
                lemma_after_step(initial, issued);
            }
            let ghost done = sectors - request.remaining;
            match request.next_packet() {
                Ok(Some(packet)) => {
                    let ok = self.extended_read(&packet, memory);
                    proof {
                        assert(ok);
                        issued = issued + 1;
                        assert(memory@ =~= overwrite(
                            untouched,
                            0,
                            self.image@.subrange(
                                source,
                                source + 512 * (done + packet.num_sectors),
                            ),
                        ));
                    }
                },
                _ => {
                    break ;
                },
            }
        }
        assert(buf.view() =~= before.medium().subrange(
            before.position() as int,
            before.position() + len,
        ) + untouched.subrange(len as int, untouched.len() as int));
        Ok(())
    }
}

/// Writing bytes at a position of a medium and reading as many bytes back
/// from the same position gives the bytes written, and the rest of the
/// medium is as before.
pub proof fn lemma_write_then_read(medium: Seq<u8>, position: int, data: Seq<u8>)
    requires
        0 <= position,
        position + data.len() <= medium.len(),
    ensures
        overwrite(medium, position, data).subrange(position, position + data.len()) == data,
        overwrite(medium, position, data).len() == medium.len(),
        forall|i: int|
            0 <= i < medium.len() && !(position <= i < position + data.len()) ==> overwrite(
                medium,
                position,
                data,
            )[i] == medium[i],
{
    assert(overwrite(medium, position, data).subrange(position, position + data.len())
        =~= data);
}

} // verus!
