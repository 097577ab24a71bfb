//! Choosing a video mode among those that the firmware offers.
//!
//! The firmware names its modes by number and describes each in a block of
//! bytes. Fetching the numbers and the blocks, and switching to the chosen
//! mode, is the caller's part; reading a block and choosing are done here.

use crate::boot_info::{BiosFramebufferInfo, PixelFormat, Region};
use crate::bytes::{le_u16, le_u32, read_le_u16, read_le_u32};
use vstd::prelude::*;

verus! {

/// The number that ends the firmware's list of modes.
pub const END_OF_MODE_LIST: u16 = 0xffff;

/// The number of bytes of a mode's description that are read here.
pub const MODE_INFO_LEN: usize = 44;

/// The bit that is added to a mode's number to ask for its linear
/// framebuffer.
pub const LINEAR_FRAMEBUFFER_BIT: u16 = 0x4000;

/// The status with which the firmware reports success.
pub const VESA_SUCCESS: u16 = 0x004f;

/// One video mode.
#[derive(Clone, Copy, Debug, PartialEq, Eq, Structural)]
pub struct VesaModeInfo {
    /// The firmware's number of the mode.
    pub mode: u16,
    /// The width in pixels.
    pub width: u16,
    /// The height in pixels.
    pub height: u16,
    /// The physical address of the framebuffer.
    pub framebuffer_start: u32,
    /// The number of bytes from the start of a line to the start of the
    /// next.
    pub bytes_per_scanline: u16,
    /// The number of whole bytes of a pixel.
    pub bytes_per_pixel: u8,
    /// The layout of a pixel.
    pub pixel_format: PixelFormat,
    /// The memory model, in the firmware's numbering.
    pub memory_model: u8,
    /// The attribute bits.
    pub attributes: u16,
}

impl VesaModeInfo {
    /// The mode numbered `mode` that the description `block` describes.
    pub open spec fn of_block(mode: u16, block: Seq<u8>) -> VesaModeInfo {
        VesaModeInfo {
            mode,
            width: le_u16(block, 18) as u16,
            height: le_u16(block, 20) as u16,
            framebuffer_start: le_u32(block, 40) as u32,
            bytes_per_scanline: le_u16(block, 16) as u16,
            bytes_per_pixel: block[25] / 8,
            pixel_format: PixelFormat::of_positions(block[32], block[34], block[36]),
            memory_model: block[27],
            attributes: le_u16(block, 0) as u16,
        }
    }

    /// The number of pixels of the mode.
    pub open spec fn area(self) -> int {
        self.width * self.height
    }

    /// Whether the mode has no more pixels than a screen of `max_width` by
    /// `max_height` pixels.
    pub open spec fn within(self, max_width: u16, max_height: u16) -> bool {
        self.area() <= max_width * max_height
    }

    /// Whether the mode is to be preferred to `other`: it has more pixels,
    /// or as many and more bytes to a pixel.
    pub open spec fn better_than(self, other: VesaModeInfo) -> bool {
        self.area() > other.area() || (self.area() == other.area() && self.bytes_per_pixel
            > other.bytes_per_pixel)
    }

    /// Reads the description `block` of the mode numbered `mode`: the
    /// attributes in bytes 0 and 1, the line length in 16 and 17, width and
    /// height in 18 to 21, the bits of a pixel in 25, the memory model in 27,
    /// the positions of red, green and blue in 32, 34 and 36, and the
    /// framebuffer's address in 40 to 43.
    pub fn from_block(mode: u16, block: &[u8]) -> (info: VesaModeInfo)
        requires
            block@.len() >= MODE_INFO_LEN,
        ensures
            info == Self::of_block(mode, block@),
    {
        let len: usize = block.len();
        VesaModeInfo {
            mode,
            width: read_le_u16(block, 18),
            height: read_le_u16(block, 20),
            framebuffer_start: read_le_u32(block, 40),
            bytes_per_scanline: read_le_u16(block, 16),
            bytes_per_pixel: block[25] / 8,
            pixel_format: PixelFormat::from_positions(block[32], block[34], block[36]),
            memory_model: block[27],
            attributes: read_le_u16(block, 0),
        }
    }

    /// The number of pixels of the mode.
    pub fn pixels(&self) -> (area: u32)
        ensures
            area == self.area(),
    {
        proof {
            vstd::arithmetic::mul::lemma_mul_upper_bound(
                self.width as int,
                0xffff,
                self.height as int,
                0xffff,
            );
        }
        self.width as u32 * self.height as u32
    }

    /// The number to hand to the firmware to switch to the mode with its
    /// linear framebuffer.
    pub fn enable_request(&self) -> (request: u16)
        ensures
            request == self.mode | LINEAR_FRAMEBUFFER_BIT,
    {
        self.mode | LINEAR_FRAMEBUFFER_BIT
    }

    /// The framebuffer of the mode as the boot information holds it. The
    /// mode has to have at least one byte to a pixel.
    pub fn framebuffer_info(&self) -> (info: BiosFramebufferInfo)
        requires
            self.bytes_per_pixel > 0,
        ensures
            info == (BiosFramebufferInfo {
                region: Region {
                    start: self.framebuffer_start as u64,
                    len: (self.height * self.bytes_per_scanline) as u64,
                },
                width: self.width,
                height: self.height,
                bytes_per_pixel: self.bytes_per_pixel,
                stride: (self.bytes_per_scanline as int / self.bytes_per_pixel as int) as u16,
                pixel_format: self.pixel_format,
            }),
    {
        proof {
            vstd::arithmetic::mul::lemma_mul_upper_bound(
                self.height as int,
                0xffff,
                self.bytes_per_scanline as int,
                0xffff,
            );
        }
        BiosFramebufferInfo {
            region: Region {
                start: self.framebuffer_start as u64,
                len: self.height as u64 * self.bytes_per_scanline as u64,
            },
            width: self.width,
            height: self.height,
            bytes_per_pixel: self.bytes_per_pixel,
            stride: self.bytes_per_scanline / self.bytes_per_pixel as u16,
            pixel_format: self.pixel_format,
        }
    }
}

/// The number of bytes of the firmware's general description that are read
/// here.
pub const VESA_INFO_LEN: usize = 18;

/// What the firmware tells of its video modes in general.
#[derive(Clone, Copy, Debug, PartialEq, Eq, Structural)]
pub struct VesaInfo {
    /// The real-mode far pointer to the list of mode numbers.
    pub video_mode_ptr: u32,
}

impl VesaInfo {
    /// What the firmware's general description `block` tells: the pointer
    /// to the list of modes stands in bytes 14 to 17.
    pub fn from_block(block: &[u8]) -> (info: VesaInfo)
        requires
            block@.len() >= VESA_INFO_LEN,
        ensures
            info.video_mode_ptr == le_u32(block@, 14),
    {
        VesaInfo { video_mode_ptr: read_le_u32(block, 14) }
    }

    /// The linear address of the list of mode numbers.
    pub fn mode_list_address(&self) -> (address: u32)
        ensures
            address == (self.video_mode_ptr / 0x1_0000) * 16 + self.video_mode_ptr % 0x1_0000,
    {
        far_pointer_address(self.video_mode_ptr)
    }
}

/// The result of one firmware call: nothing on success, else the status.
pub fn check_status(status: u16) -> (r: Result<(), u16>)
    ensures
        status == VESA_SUCCESS ==> r == Ok::<(), u16>(()),
        status != VESA_SUCCESS ==> r == Err::<(), u16>(status),
{
    if status == VESA_SUCCESS {
        Ok(())
    } else {
        Err(status)
    }
}

/// The linear address that the real-mode far pointer `pointer` names: its
/// upper half is the segment, its lower half the offset.
pub fn far_pointer_address(pointer: u32) -> (address: u32)
    ensures
        address == (pointer / 0x1_0000) * 16 + pointer % 0x1_0000,
{
    (pointer / 0x1_0000) * 16 + pointer % 0x1_0000
}

/// The modes that the list `numbers` names: those before the end mark.
pub open spec fn listed(numbers: Seq<u16>) -> Seq<u16>
    decreases numbers.len(),
{
    if numbers.len() == 0 || numbers[0] == END_OF_MODE_LIST {
        Seq::empty()
    } else {
        seq![numbers[0]] + listed(numbers.subrange(1, numbers.len() as int))
    }
}

/// The mode number at `index` of the firmware's list, or nothing where the
/// list has ended there.
pub fn get_mode(numbers: &[u16], index: usize) -> (mode: Option<u16>)
    requires
        index < numbers@.len(),
    ensures
        mode == if numbers@[index as int] == END_OF_MODE_LIST {
            None
        } else {
            Some(numbers@[index as int])
        },
{
    let mode: u16 = numbers[index];
    if mode == END_OF_MODE_LIST {
        None
    } else {
        Some(mode)
    }
}

/// The mode numbers of the firmware's list `numbers`, up to the end mark or
/// the end of the list.
pub fn mode_numbers(numbers: &[u16]) -> (modes: Vec<u16>)
    ensures
        modes@ == listed(numbers@),
{
    let mut modes: Vec<u16> = Vec::new();
    let mut i: usize = 0;
    assert(numbers@.subrange(0, numbers@.len() as int) =~= numbers@);
    while i < numbers.len()
        invariant
            i <= numbers@.len(),
            listed(numbers@) == modes@ + listed(numbers@.subrange(i as int, numbers@.len() as int)),
        decreases numbers@.len() - i,
    {
        let ghost rest = numbers@.subrange(i as int, numbers@.len() as int);
        assert(rest[0] == numbers@[i as int]);
        match get_mode(numbers, i) {
            None => {
                assert(listed(rest) =~= Seq::<u16>::empty());
                assert(modes@ + Seq::<u16>::empty() =~= modes@);
                return modes;
            },
            Some(mode) => {
                let ghost before = modes@;
                modes.push(mode);
                proof {
                    let tail = numbers@.subrange(i + 1, numbers@.len() as int);
                    assert(rest.subrange(1, rest.len() as int) =~= tail);
                    assert(before + (seq![mode] + listed(tail)) =~= modes@ + listed(tail));
                }
            },
        }
        i += 1;
    }
    assert(modes@ + Seq::<u16>::empty() =~= modes@);
    modes
}

/// The choice among the modes seen so far once `candidate` is seen too.
pub open spec fn choose_mode(
    best: Option<VesaModeInfo>,
    candidate: VesaModeInfo,
    max_width: u16,
    max_height: u16,
) -> Option<VesaModeInfo> {
    if !candidate.within(max_width, max_height) {
        best
    } else {
        match best {
            None => Some(candidate),
            Some(chosen) => if candidate.better_than(chosen) {
                Some(candidate)
            } else {
                Some(chosen)
            },
        }
    }
}

/// The choice among `modes`.
pub open spec fn best_mode(modes: Seq<VesaModeInfo>, max_width: u16, max_height: u16) -> Option<
    VesaModeInfo,
>
    decreases modes.len(),
{
    if modes.len() == 0 {
        None
    } else {
        choose_mode(
            best_mode(modes.drop_last(), max_width, max_height),
            modes.last(),
            max_width,
            max_height,
        )
    }
}

/// Takes `candidate` into the choice: it replaces the mode chosen so far if
/// it has no more pixels than the bound allows and is better than that mode,
/// or if none was chosen yet.
pub fn consider(
    best: Option<VesaModeInfo>,
    candidate: VesaModeInfo,
    max_width: u16,
    max_height: u16,
) -> (chosen: Option<VesaModeInfo>)
    ensures
        chosen == choose_mode(best, candidate, max_width, max_height),
{
    proof {
        vstd::arithmetic::mul::lemma_mul_upper_bound(
            max_width as int,
            0xffff,
            max_height as int,
            0xffff,
        );
    }
    let bound: u32 = max_width as u32 * max_height as u32;
    let area: u32 = candidate.pixels();
    if area > bound {
        return best;
    }
    match best {
        None => Some(candidate),
        Some(chosen) => {
            let chosen_area: u32 = chosen.pixels();
            if area > chosen_area || (area == chosen_area && candidate.bytes_per_pixel
                > chosen.bytes_per_pixel) {
                Some(candidate)
            } else {
                Some(chosen)
            }
        },
    }
}

/// Chooses among `modes` the one with the most pixels among those that have
/// no more pixels than a screen of `max_width` by `max_height`; among modes
/// of as many pixels the one with the most bytes to a pixel; among those the
/// one that comes first. There is none if every mode has too many pixels.
pub fn get_best_mode(modes: &[VesaModeInfo], max_width: u16, max_height: u16) -> (chosen: Option<
    VesaModeInfo,
>)
    ensures
        chosen == best_mode(modes@, max_width, max_height),
        chosen is None <==> forall|i: int|
            0 <= i < modes@.len() ==> !(#[trigger] modes@[i]).within(max_width, max_height),
        chosen is Some ==> is_best(modes@, chosen->Some_0, max_width, max_height),
{
    let mut best: Option<VesaModeInfo> = None;
    let mut i: usize = 0;
    assert(modes@.subrange(0, 0) =~= Seq::<VesaModeInfo>::empty());
    while i < modes.len()
        invariant
            i <= modes@.len(),
            best == best_mode(modes@.subrange(0, i as int), max_width, max_height),
        decreases modes@.len() - i,
    {
        proof {
            let next = modes@.subrange(0, i + 1);
            assert(next.drop_last() =~= modes@.subrange(0, i as int));
            assert(next.last() == modes@[i as int]);
        }
        best = consider(best, modes[i], max_width, max_height);
        i += 1;
    }
    proof {
        assert(modes@.subrange(0, i as int) =~= modes@);
        lemma_best_mode(modes@, max_width, max_height);
    }
    best
}

/// Whether `chosen` is the right choice among `modes`: it is one of them,
/// has no more pixels than the bound allows, no mode within the bound is
/// better, and it stands before every other mode that is as good.
pub open spec fn is_best(
    modes: Seq<VesaModeInfo>,
    chosen: VesaModeInfo,
    max_width: u16,
    max_height: u16,
) -> bool {
    exists|at: int|
        {
            &&& 0 <= at < modes.len()
            &&& #[trigger] modes[at] == chosen
            &&& chosen.within(max_width, max_height)
            &&& forall|i: int|
                0 <= i < modes.len() && (#[trigger] modes[i]).within(max_width, max_height)
                    ==> !modes[i].better_than(chosen)
            &&& forall|i: int|
                0 <= i < at && (#[trigger] modes[i]).within(max_width, max_height)
                    ==> chosen.better_than(modes[i])
        }
}

/// The choice among modes is none where no mode is within the bound, and
/// else the first of the best modes within the bound.
pub proof fn lemma_best_mode(modes: Seq<VesaModeInfo>, max_width: u16, max_height: u16)
    ensures
        best_mode(modes, max_width, max_height) is None <==> forall|i: int|
            0 <= i < modes.len() ==> !(#[trigger] modes[i]).within(max_width, max_height),
        best_mode(modes, max_width, max_height) is Some ==> is_best(
            modes,
            best_mode(modes, max_width, max_height)->Some_0,
            max_width,
            max_height,
        ),
    decreases modes.len(),
{
    if modes.len() > 0 {
        let front = modes.drop_last();
        let candidate = modes.last();
        let before = best_mode(front, max_width, max_height);
        let after = best_mode(modes, max_width, max_height);
        lemma_best_mode(front, max_width, max_height);
        assert forall|i: int| 0 <= i < front.len() implies front[i] == modes[i] by {}
        if before is None {
            if candidate.within(max_width, max_height) {
                let at = modes.len() - 1;
                assert(modes[at] == candidate);
                assert forall|i: int|
                    0 <= i < modes.len() && (#[trigger] modes[i]).within(
                        max_width,
                        max_height,
                    ) implies !modes[i].better_than(candidate) by {
                    if i < front.len() {
                        assert(!front[i].within(max_width, max_height));
                    }
                }
                assert forall|i: int|
                    0 <= i < at && (#[trigger] modes[i]).within(
                        max_width,
                        max_height,
                    ) implies candidate.better_than(modes[i]) by {
                    assert(!front[i].within(max_width, max_height));
                }
                assert(is_best(modes, candidate, max_width, max_height));
            } else {
                assert forall|i: int| 0 <= i < modes.len() implies !(#[trigger] modes[i]).within(
                    max_width,
                    max_height,
                ) by {
                    if i < front.len() {
                        assert(!front[i].within(max_width, max_height));
                    }
                }
            }
        } else {
            let chosen = before->Some_0;
            let at = choose|at: int|
                {
                    &&& 0 <= at < front.len()
                    &&& #[trigger] front[at] == chosen
                    &&& chosen.within(max_width, max_height)
                    &&& forall|i: int|
                        0 <= i < front.len() && (#[trigger] front[i]).within(
                            max_width,
                            max_height,
                        ) ==> !front[i].better_than(chosen)
                    &&& forall|i: int|
                        0 <= i < at && (#[trigger] front[i]).within(max_width, max_height)
                            ==> chosen.better_than(front[i])
                };
            assert(modes[at] == chosen);
            assert(modes[at].within(max_width, max_height));
            if candidate.within(max_width, max_height) && candidate.better_than(chosen) {
                let last = modes.len() - 1;
                assert(modes[last] == candidate);
                assert forall|i: int|
                    0 <= i < modes.len() && (#[trigger] modes[i]).within(
                        max_width,
                        max_height,
                    ) implies !modes[i].better_than(candidate) by {
                    if i < front.len() {
                        assert(!front[i].better_than(chosen));
                    }
                }
                assert forall|i: int|
                    0 <= i < last && (#[trigger] modes[i]).within(
                        max_width,
                        max_height,
                    ) implies candidate.better_than(modes[i]) by {
                    assert(!front[i].better_than(chosen));
                }
                assert(is_best(modes, candidate, max_width, max_height));
            } else {
                assert(after == Some(chosen));
                assert forall|i: int|
                    0 <= i < modes.len() && (#[trigger] modes[i]).within(
                        max_width,
                        max_height,
                    ) implies !modes[i].better_than(chosen) by {
                    if i < front.len() {
                        assert(!front[i].better_than(chosen));
                    }
                }
                assert forall|i: int|
                    0 <= i < at && (#[trigger] modes[i]).within(
                        max_width,
                        max_height,
                    ) implies chosen.better_than(modes[i]) by {
                    assert(front[i].within(max_width, max_height));
                }
                assert(is_best(modes, chosen, max_width, max_height));
            }
        }
    }
}

} // verus!
