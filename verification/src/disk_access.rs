//! Reading a disk through the firmware's extended read.
//!
//! One firmware call moves at most 32 sectors. A longer read is cut into
//! requests that follow one another on the disk and in memory. This module
//! decides what the requests are; issuing them is the caller's part.

use crate::bytes::{le_bytes, le_u16, le_u64, lemma_le_bytes_u16, lemma_le_bytes_u64};
use crate::fail::Failure;
use vstd::prelude::*;

verus! {

/// The size of a disk sector in bytes.
pub const SECTOR_SIZE: u64 = 512;

/// The number of sectors that one firmware call can move.
pub const MAX_SECTORS_PER_CALL: u64 = 32;

/// The number of bytes that one firmware call can move.
pub const MAX_BYTES_PER_CALL: u32 = 0x4000;

/// One above the highest address that a real-mode segment and offset of the
/// form used here can name.
pub const ADDRESSABLE_LIMIT: u32 = 0x10_0000;

/// The code shown when a read targets memory that no segment can name.
pub const TARGET_OUT_OF_REACH: u8 = 0x61;

/// Where to move a cursor.
#[derive(Clone, Copy, Debug, PartialEq, Eq, Structural)]
pub enum SeekFrom {
    /// To the given offset from the start.
    Start(u64),
}

/// The request block of the firmware's extended read.
#[derive(Clone, Copy, Debug, PartialEq, Eq, Structural)]
pub struct DiskAccessPacket {
    /// The size of this block in bytes, always 16.
    pub packet_size: u8,
    /// Reserved, always 0.
    pub zero: u8,
    /// The number of sectors to read.
    pub num_sectors: u16,
    /// The offset of the destination within its segment.
    pub offset: u16,
    /// The segment of the destination.
    pub segment: u16,
    /// The first sector to read.
    pub start_lba: u64,
}

impl DiskAccessPacket {
    /// The linear address that the request's segment and offset name.
    pub open spec fn target(self) -> int {
        self.segment as int * 16 + self.offset as int
    }

    /// The request's bytes as the firmware reads them: size, reserved byte,
    /// then sector count, offset, segment and first sector, each least
    /// significant byte first.
    pub open spec fn wire(self) -> Seq<u8> {
        seq![self.packet_size, self.zero] + le_bytes(self.num_sectors as int, 2) + le_bytes(
            self.offset as int,
            2,
        ) + le_bytes(self.segment as int, 2) + le_bytes(self.start_lba as int, 8)
    }

    /// The request for `number_of_sectors` sectors from `start_lba` on, to be
    /// stored at `target_addr` within the segment `target_addr_segment`.
    pub fn from_lba(
        start_lba: u64,
        number_of_sectors: u16,
        target_addr: u16,
        target_addr_segment: u16,
    ) -> (packet: DiskAccessPacket)
        ensures
            packet == (DiskAccessPacket {
                packet_size: 0x10,
                zero: 0,
                num_sectors: number_of_sectors,
                offset: target_addr,
                segment: target_addr_segment,
                start_lba,
            }),
    {
        DiskAccessPacket {
            packet_size: 0x10,
            zero: 0,
            num_sectors: number_of_sectors,
            offset: target_addr,
            segment: target_addr_segment,
            start_lba,
        }
    }

    /// The 16 bytes handed to the firmware.
    pub fn to_bytes(&self) -> (bytes: [u8; 16])
        ensures
            bytes@ == self.wire(),
            bytes@[0] == self.packet_size,
            bytes@[1] == self.zero,
            le_u16(bytes@, 2) == self.num_sectors,
            le_u16(bytes@, 4) == self.offset,
            le_u16(bytes@, 6) == self.segment,
            le_u64(bytes@, 8) == self.start_lba,
    {
        let q0: u64 = self.start_lba;
        let q1: u64 = q0 / 0x100;
        let q2: u64 = q1 / 0x100;
        let q3: u64 = q2 / 0x100;
        let q4: u64 = q3 / 0x100;
        let q5: u64 = q4 / 0x100;
        let q6: u64 = q5 / 0x100;
        let q7: u64 = q6 / 0x100;
        let bytes: [u8; 16] = [
            self.packet_size,
            self.zero,
            (self.num_sectors % 0x100) as u8,
            (self.num_sectors / 0x100) as u8,
            (self.offset % 0x100) as u8,
            (self.offset / 0x100) as u8,
            (self.segment % 0x100) as u8,
            (self.segment / 0x100) as u8,
            (q0 % 0x100) as u8,
            (q1 % 0x100) as u8,
            (q2 % 0x100) as u8,
            (q3 % 0x100) as u8,
            (q4 % 0x100) as u8,
            (q5 % 0x100) as u8,
            (q6 % 0x100) as u8,
            (q7 % 0x100) as u8,
        ];
        proof {
            lemma_le_bytes_u16(self.num_sectors);
            lemma_le_bytes_u16(self.offset);
            lemma_le_bytes_u16(self.segment);
            lemma_le_bytes_u64(self.start_lba);
            let tail = le_bytes(self.start_lba as int, 8);
            assert(bytes@ =~= self.wire());
            assert(bytes@.subrange(8, 16) =~= tail);
            assert(le_u64(bytes@, 8) == le_u64(tail, 0));
        }
        bytes
    }
}

/// A read of whole sectors that is carried out request by request.
#[derive(Clone, Copy, Debug, PartialEq, Eq, Structural)]
pub struct ChunkedRead {
    /// The first sector not yet asked for.
    pub next_lba: u64,
    /// The number of sectors not yet asked for.
    pub remaining: u64,
    /// The linear address at which the next sector is to be stored.
    pub target_addr: u32,
}

impl ChunkedRead {
    /// The number of requests that the read takes: the number of sectors
    /// divided by 32, rounded up.
    pub open spec fn packet_count(self) -> int {
        (self.remaining + 31) / 32
    }

    /// Whether the last sector's number fits the request block.
    pub open spec fn in_range(self) -> bool {
        self.next_lba + self.remaining <= u64::MAX
    }

    /// Whether a segment and an offset can name the destination of every
    /// request.
    pub open spec fn addressable(self) -> bool {
        self.remaining > 0 ==> self.target_addr + (self.packet_count() - 1) * 0x4000 < 0x10_0000
    }

    /// Whether the destination starts on an even address, as the firmware
    /// asks.
    pub open spec fn word_aligned(self) -> bool {
        self.target_addr % 2 == 0
    }

    /// The number of sectors that request `i` asks for: 32, or what is left.
    pub open spec fn nth_sectors(self, i: int) -> int {
        if self.remaining - 32 * i < 32 {
            self.remaining - 32 * i
        } else {
            32
        }
    }

    /// Request `i` of the read.
    pub open spec fn nth_packet(self, i: int) -> DiskAccessPacket {
        let target = self.target_addr + i * 0x4000;
        DiskAccessPacket {
            packet_size: 0x10,
            zero: 0,
            num_sectors: self.nth_sectors(i) as u16,
            offset: (target % 16) as u16,
            segment: (target / 16) as u16,
            start_lba: (self.next_lba + 32 * i) as u64,
        }
    }

    /// All requests of the read, in the order in which they are issued.
    pub open spec fn packets(self) -> Seq<DiskAccessPacket> {
        Seq::new(self.packet_count() as nat, |i: int| self.nth_packet(i))
    }

    /// What is left of the read once the first `i` requests are issued.
    pub open spec fn after(self, i: int) -> ChunkedRead {
        let done = if 32 * i < self.remaining {
            32 * i
        } else {
            self.remaining as int
        };
        ChunkedRead {
            next_lba: (self.next_lba + done) as u64,
            remaining: (self.remaining - done) as u64,
            target_addr: (self.target_addr + 512 * done) as u32,
        }
    }

    /// The read of `sector_count` sectors from `start_lba` on, to be stored
    /// from `target_addr` on.
    pub fn new(start_lba: u64, sector_count: u64, target_addr: u32) -> (read: ChunkedRead)
        ensures
            read == (ChunkedRead { next_lba: start_lba, remaining: sector_count, target_addr }),
    {
        ChunkedRead { next_lba: start_lba, remaining: sector_count, target_addr }
    }

    /// The next request, if any, and the read without it.
    ///
    /// A read with no sector left gives no request. A destination at or above
    /// 1 MiB cannot be named, so the read fails and stays as it is.
    pub fn next_packet(&mut self) -> (r: Result<Option<DiskAccessPacket>, Failure>)
        requires
            old(self).in_range(),
        ensures
            old(self).remaining == 0 ==> r == Ok::<Option<DiskAccessPacket>, Failure>(None)
                && *final(self) == *old(self),
            old(self).remaining > 0 && old(self).target_addr >= ADDRESSABLE_LIMIT ==> r == Err::<
                Option<DiskAccessPacket>,
                Failure,
            >(Failure { code: TARGET_OUT_OF_REACH }) && *final(self) == *old(self),
            old(self).remaining > 0 && old(self).target_addr < ADDRESSABLE_LIMIT ==> r == Ok::<
                Option<DiskAccessPacket>,
                Failure,
            >(Some(old(self).nth_packet(0))) && *final(self) == old(self).after(1),
            final(self).in_range(),
    {
        if self.remaining == 0 {
            return Ok(None);
        }
        if self.target_addr >= ADDRESSABLE_LIMIT {
            return Err(Failure { code: TARGET_OUT_OF_REACH });
        }
        let sectors: u16 = if self.remaining < MAX_SECTORS_PER_CALL {
            self.remaining as u16
        } else {
            32
        };
        let packet = DiskAccessPacket::from_lba(
            self.next_lba,
            sectors,
            (self.target_addr % 16) as u16,
            (self.target_addr / 16) as u16,
        );
        self.next_lba = self.next_lba + sectors as u64;
        self.remaining = self.remaining - sectors as u64;
        self.target_addr = self.target_addr + sectors as u32 * 512;
        Ok(Some(packet))
    }

    /// All requests of the read, or the failure of the first one whose
    /// destination cannot be named.
    pub fn collect(self) -> (r: Result<Vec<DiskAccessPacket>, Failure>)
        requires
            self.in_range(),
        ensures
            r is Ok <==> self.addressable(),
            r is Ok ==> r->Ok_0@ == self.packets(),
            r is Err ==> r->Err_0 == (Failure { code: TARGET_OUT_OF_REACH }),
    {
        let mut rest = self;
        let mut packets: Vec<DiskAccessPacket> = Vec::new();
        loop
            invariant
                self.in_range(),
                0 <= packets@.len() <= self.packet_count(),
                rest == self.after(packets@.len() as int),
                forall|i: int| 0 <= i < packets@.len() ==> packets@[i] == self.nth_packet(i),
                packets@.len() > 0 ==> self.target_addr + (packets@.len() - 1) * 0x4000
                    < 0x10_0000,
            decreases self.packet_count() - packets@.len(),
        {
            let ghost issued = packets@.len() as int;
            proof {
                lemma_after_step(self, issued);
            }
            match rest.next_packet() {
                Ok(Some(packet)) => {
                    packets.push(packet);
                },
                Ok(None) => {
                    assert(packets@ =~= self.packets());
                    return Ok(packets);
                },
                Err(failure) => {
                    return Err(failure);
                },
            }
        }
    }
}

/// What is left after `i` requests starts with request `i`, and loses it to
/// become what is left after `i + 1` requests.
pub proof fn lemma_after_step(read: ChunkedRead, i: int)
    requires
        read.in_range(),
        0 <= i <= read.packet_count(),
    ensures
        read.after(i).in_range(),
        read.after(i).remaining == 0 <==> i == read.packet_count(),
        i < read.packet_count() && read.target_addr + i * 0x4000 < 0x10_0000 ==> {
            &&& read.after(i).target_addr == read.target_addr + i * 0x4000
            &&& read.after(i).nth_packet(0) == read.nth_packet(i)
            &&& read.after(i).after(1) == read.after(i + 1)
        },
        i < read.packet_count() && read.addressable() ==> read.target_addr + i * 0x4000
            < 0x10_0000,
{
}

/// The requests of a read leave no gap and do not overlap: there are as many
/// as the sector count divided by 32, rounded up; each asks for 1 to 32
/// sectors; each starts on the disk where the one before it ended, and, in
/// a read whose destinations can all be named, in memory too; and the last
/// one ends with the last sector of the read.
pub proof fn lemma_requests_are_contiguous(read: ChunkedRead)
    requires
        read.in_range(),
    ensures
        read.packets().len() == (read.remaining + 31) / 32,
        forall|i: int|
            0 <= i < read.packets().len() ==> 1 <= (#[trigger] read.packets()[i]).num_sectors
                <= 32,
        read.remaining > 0 ==> read.packets()[0].start_lba == read.next_lba,
        forall|i: int|
            0 <= i && i + 1 < read.packets().len() ==> {
                let p = #[trigger] read.packets()[i];
                let q = read.packets()[i + 1];
                q.start_lba == p.start_lba + p.num_sectors
            },
        read.remaining > 0 ==> {
            let last = read.packets()[read.packets().len() - 1];
            last.start_lba + last.num_sectors == read.next_lba + read.remaining
        },
        read.addressable() && read.remaining > 0 ==> read.packets()[0].target()
            == read.target_addr,
        read.addressable() ==> forall|i: int|
            0 <= i && i + 1 < read.packets().len() ==> {
                let p = #[trigger] read.packets()[i];
                let q = read.packets()[i + 1];
                q.target() == p.target() + 512 * p.num_sectors
            },
        read.addressable() && read.word_aligned() ==> forall|i: int|
            0 <= i < read.packets().len() ==> (#[trigger] read.packets()[i]).target() % 2 == 0,
{
    assert forall|i: int| 0 <= i < read.packets().len() implies {
        let p = #[trigger] read.packets()[i];
        &&& 1 <= p.num_sectors <= 32
        &&& p.num_sectors == read.nth_sectors(i)
        &&& p.start_lba == read.next_lba + 32 * i
        &&& read.addressable() ==> p.target() == read.target_addr + i * 0x4000
    } by {
        lemma_after_step(read, i);
    }
}

/// A buffer that the firmware can write to: its storage starts on an even
/// address.
pub trait AlignedBuffer {
    /// The bytes in the buffer.
    spec fn view(&self) -> Seq<u8>;

    /// The buffer's bytes.
    fn slice(&self) -> (s: &[u8])
        ensures
            s@ == self.view(),
    ;

    /// The buffer's bytes, to be written.
    fn slice_mut(&mut self) -> (s: &mut [u8])
        ensures
            s@ == old(self).view(),
            final(self).view() == final(s)@,
    ;
}

/// A buffer of `LEN` bytes.
#[derive(Clone, Copy, Debug)]
pub struct AlignedArrayBuffer<const LEN: usize> {
    /// The storage.
    pub buffer: [u8; LEN],
}

impl<const LEN: usize> AlignedBuffer for AlignedArrayBuffer<LEN> {
    open spec fn view(&self) -> Seq<u8> {
        self.buffer@
    }

    fn slice(&self) -> (s: &[u8]) {
        self.buffer.as_slice()
    }

    fn slice_mut(&mut self) -> (s: &mut [u8]) {
        &mut self.buffer
    }
}

/// A cursor that can be moved.
pub trait Seek: Sized {
    /// Where the cursor stands.
    spec fn position(&self) -> u64;

    /// The same value with the cursor at `offset`.
    spec fn moved_to(&self, offset: u64) -> Self;

    /// Moves the cursor, without reading anything, and returns where it
    /// stands then.
    fn seek(&mut self, pos: SeekFrom) -> (offset: u64)
        ensures
            pos == SeekFrom::Start(offset),
            *final(self) == old(self).moved_to(offset),
            final(self).position() == offset,
    ;
}

/// Why a read gave nothing.
#[derive(Clone, Copy, Debug, PartialEq, Eq, Structural)]
pub enum ReadError {
    /// The device reported an error: a sector asked for is not on the medium.
    Device,
}

/// The first byte of the two-sector window around `position`.
pub open spec fn window_start(position: int) -> int {
    position - position % 512
}

/// A medium that is read at a cursor.
pub trait Read: Seek {
    /// The bytes of the medium, from the point that the cursor counts from.
    spec fn medium(&self) -> Seq<u8>;

    /// Moving the cursor leaves the medium as it is.
    proof fn lemma_seek_keeps_medium(&self, offset: u64)
        ensures
            self.moved_to(offset).medium() == self.medium(),
    ;

    /// Reads `len` bytes at the cursor, which may stand anywhere in a sector.
    ///
    /// The device delivers the two sectors from the start of the cursor's
    /// sector on; the bytes asked for have to lie in them. The read succeeds
    /// if the medium holds both sectors, and then moves the cursor to their
    /// end.
    fn read_exact(&mut self, len: usize) -> (r: Result<Vec<u8>, ReadError>)
        requires
            old(self).position() % 512 + len <= 1024,
        ensures
            final(self).medium() == old(self).medium(),
            r is Ok <==> window_start(old(self).position() as int) + 1024 <= old(
                self,
            ).medium().len(),
            r is Ok ==> r->Ok_0@ == old(self).medium().subrange(
                old(self).position() as int,
                old(self).position() + len,
            ) && final(self).position() == window_start(old(self).position() as int) + 1024,
            r is Err ==> *final(self) == *old(self),
    ;

    /// Reads `len` bytes, a whole number of sectors, from the cursor, which
    /// stands at the start of a sector, into the front of `buf`.
    ///
    /// The read succeeds if the medium holds the bytes, and then moves the
    /// cursor to their end. A failed read changes nothing.
    fn read_exact_into<B: AlignedBuffer>(&mut self, len: usize, buf: &mut B) -> (r: Result<
        (),
        ReadError,
    >)
        requires
            len % 512 == 0,
            len <= old(buf).view().len(),
            len <= ADDRESSABLE_LIMIT,
            old(self).position() % 512 == 0,
        ensures
            final(self).medium() == old(self).medium(),
            r is Ok <==> old(self).position() + len <= old(self).medium().len(),
            r is Ok ==> final(self).position() == old(self).position() + len,
            r is Ok ==> final(buf).view() == old(self).medium().subrange(
                old(self).position() as int,
                old(self).position() + len,
            ) + old(buf).view().subrange(len as int, old(buf).view().len() as int),
            r is Err ==> *final(self) == *old(self) && final(buf).view() == old(buf).view(),
    ;
}

/// A cursor on one partition of a disk that the firmware reads.
#[derive(Clone, Copy, Debug, PartialEq, Eq, Structural)]
pub struct DiskAccess {
    /// The firmware's number of the disk.
    pub disk_number: u16,
    /// The byte on the disk at which the partition starts.
    pub base_offset: u64,
    /// The cursor, counted from the start of the partition.
    pub current_offset: u64,
}

impl Seek for DiskAccess {
    open spec fn position(&self) -> u64 {
        self.current_offset
    }

    open spec fn moved_to(&self, offset: u64) -> DiskAccess {
        DiskAccess {
            disk_number: self.disk_number,
            base_offset: self.base_offset,
            current_offset: offset,
        }
    }

    fn seek(&mut self, pos: SeekFrom) -> (offset: u64) {
        match pos {
            SeekFrom::Start(offset) => {
                self.current_offset = offset;
                self.current_offset
            },
        }
    }
}

impl DiskAccess {
    /// The byte on the disk at which the cursor stands.
    pub open spec fn absolute(self) -> int {
        self.base_offset + self.current_offset
    }

    /// The number of sectors that hold the `len` bytes from the cursor on.
    pub open spec fn sectors_spanned(self, len: int) -> int {
        if len <= 0 {
            0
        } else {
            (self.absolute() + len - 1) / 512 + 1 - self.absolute() / 512
        }
    }

    /// The read that fetches the sectors holding the `len` bytes from the
    /// cursor on, to be stored from `target_addr` on.
    pub open spec fn request(self, len: int, target_addr: u32) -> ChunkedRead {
        ChunkedRead {
            next_lba: (self.absolute() / 512) as u64,
            remaining: self.sectors_spanned(len) as u64,
            target_addr,
        }
    }

    /// The cursor moved on by `len` bytes.
    pub open spec fn advanced(self, len: int) -> DiskAccess {
        DiskAccess {
            disk_number: self.disk_number,
            base_offset: self.base_offset,
            current_offset: (self.current_offset + len) as u64,
        }
    }

    /// The cursor at the start of the partition that begins with sector
    /// `logical_block_address` of disk `disk_number`.
    pub fn for_partition(disk_number: u16, logical_block_address: u32) -> (disk: DiskAccess)
        ensures
            disk == (DiskAccess {
                disk_number,
                base_offset: (logical_block_address * 512) as u64,
                current_offset: 0,
            }),
            disk.base_offset % 512 == 0,
    {
        DiskAccess {
            disk_number,
            base_offset: logical_block_address as u64 * SECTOR_SIZE,
            current_offset: 0,
        }
    }

    /// Starts a read of `len` bytes, a whole number of sectors, from the
    /// cursor into the memory at `target_addr`: returns the firmware requests
    /// to issue and moves the cursor to the end of the bytes.
    ///
    /// The requests cover every sector that holds one of the bytes, so a
    /// cursor within a sector costs one sector more, and the bytes then start
    /// that far into the memory. The memory has to start on an even address,
    /// as the firmware asks.
    pub fn read_exact_into(&mut self, len: usize, target_addr: u32) -> (read: ChunkedRead)
        requires
            len % 512 == 0,
            target_addr % 2 == 0,
            old(self).absolute() + len <= u64::MAX,
        ensures
            read == old(self).request(len as int, target_addr),
            read.in_range(),
            read.word_aligned(),
            read.packet_count() == (old(self).sectors_spanned(len as int) + 31) / 32,
            *final(self) == old(self).advanced(len as int),
    {
        let start: u64 = self.base_offset + self.current_offset;
        let start_lba: u64 = start / SECTOR_SIZE;
        let sectors: u64 = if len == 0 {
            0
        } else {
            let end_lba: u64 = (start + len as u64 - 1) / SECTOR_SIZE;
            end_lba + 1 - start_lba
        };
        self.current_offset = self.current_offset + len as u64;
        ChunkedRead::new(start_lba, sectors, target_addr)
    }

    /// Starts a read of `len` bytes from the cursor, which may stand anywhere
    /// in a sector, through a scratch buffer of two sectors at
    /// `scratch_addr`: returns the firmware requests to issue and how many
    /// bytes of the scratch buffer lie before the bytes asked for, and moves
    /// the cursor to the end of the two sectors.
    ///
    /// The two sectors are the cursor's own and the next. The partition has
    /// to start with a sector, and the scratch buffer on an even address.
    pub fn read_exact(&mut self, len: usize, scratch_addr: u32) -> (r: (ChunkedRead, usize))
        requires
            old(self).base_offset % 512 == 0,
            scratch_addr % 2 == 0,
            old(self).current_offset % 512 + len <= 1024,
            old(self).base_offset + window_start(old(self).current_offset as int) + 1024
                <= u64::MAX,
        ensures
            r.0 == (ChunkedRead {
                next_lba: (old(self).absolute() / 512) as u64,
                remaining: 2,
                target_addr: scratch_addr,
            }),
            r.0.in_range(),
            r.0.word_aligned(),
            r.1 == old(self).current_offset % 512,
            *final(self) == old(self).moved_to(
                (window_start(old(self).current_offset as int) + 1024) as u64,
            ),
    {
        let skip: u64 = self.current_offset % SECTOR_SIZE;
        let window: u64 = self.current_offset - skip;
        let start_lba: u64 = self.base_offset / SECTOR_SIZE + window / SECTOR_SIZE;
        self.current_offset = window + 1024;
        (ChunkedRead::new(start_lba, 2, scratch_addr), skip as usize)
    }
}

/// A read through the disk access layer takes as many firmware calls as the
/// number of sectors it spans, divided by 32 and rounded up, and each call
/// goes on, on the disk and, where the destinations can all be named, in
/// memory, where the one before it ended.
pub proof fn lemma_read_is_chunked(disk: DiskAccess, len: int, target_addr: u32)
    requires
        0 <= len,
        disk.absolute() + len <= u64::MAX,
    ensures
        ({
            let read = disk.request(len, target_addr);
            &&& read.in_range()
            &&& read.packets().len() == (disk.sectors_spanned(len) + 31) / 32
            &&& forall|i: int|
                0 <= i < read.packets().len() ==> {
                    let p = #[trigger] read.packets()[i];
                    &&& p.start_lba == disk.absolute() / 512 + 32 * i
                    &&& read.addressable() ==> p.target() == target_addr + 0x4000 * i
                    &&& 1 <= p.num_sectors <= 32
                    &&& p.num_sectors == if disk.sectors_spanned(len) - 32 * i < 32 {
                        disk.sectors_spanned(len) - 32 * i
                    } else {
                        32
                    }
                }
        }),
{
    let read = disk.request(len, target_addr);
    assert forall|i: int| 0 <= i < read.packets().len() implies {
        let p = #[trigger] read.packets()[i];
        &&& p.start_lba == disk.absolute() / 512 + 32 * i
        &&& read.addressable() ==> p.target() == target_addr + 0x4000 * i
        &&& 1 <= p.num_sectors <= 32
        &&& p.num_sectors == read.nth_sectors(i)
    } by {
        lemma_after_step(read, i);
    }
}

} // verus!
