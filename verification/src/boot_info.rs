//! The block of boot information that is handed from stage to stage.

use vstd::prelude::*;

verus! {

/// A run of physical memory.
#[derive(Clone, Copy, Debug, PartialEq, Eq, Structural)]
pub struct Region {
    /// The address of the first byte.
    pub start: u64,
    /// The number of bytes.
    pub len: u64,
}

impl Region {
    /// The address behind the last byte.
    pub open spec fn end(self) -> int {
        self.start + self.len
    }

    /// Whether the two runs have a byte in common.
    pub open spec fn spec_overlaps(self, other: Region) -> bool {
        self.len > 0 && other.len > 0 && self.start < other.end() && other.start < self.end()
    }

    /// The run of no bytes at address 0.
    pub fn empty() -> (region: Region)
        ensures
            region == (Region { start: 0, len: 0 }),
    {
        Region { start: 0, len: 0 }
    }

    /// Whether the two runs have a byte in common. An empty run has none.
    pub fn overlaps(&self, other: &Region) -> (common: bool)
        ensures
            common == self.spec_overlaps(*other),
    {
        if self.len == 0 || other.len == 0 {
            return false;
        }
        let starts_before_other_ends = other.len > u64::MAX - other.start || self.start
            < other.start + other.len;
        let other_starts_before_end = self.len > u64::MAX - self.start || other.start < self.start
            + self.len;
        starts_before_other_ends && other_starts_before_end
    }
}

/// The order of the colour channels in a pixel.
#[derive(Clone, Copy, Debug, PartialEq, Eq, Structural)]
pub enum PixelFormat {
    /// Red in the lowest byte, then green, then blue.
    Rgb,
    /// Blue in the lowest byte, then green, then red.
    Bgr,
    /// Another layout, with the bit at which each channel starts.
    Unknown {
        /// The lowest bit of the red channel.
        red_position: u8,
        /// The lowest bit of the green channel.
        green_position: u8,
        /// The lowest bit of the blue channel.
        blue_position: u8,
    },
}

impl PixelFormat {
    /// The layout of a pixel whose channels start at the given bits: red,
    /// green, blue at 0, 8, 16 is `Rgb`, at 16, 8, 0 is `Bgr`, and any other
    /// layout is kept with its positions.
    pub open spec fn of_positions(red_position: u8, green_position: u8, blue_position: u8)
        -> PixelFormat {
        if red_position == 0 && green_position == 8 && blue_position == 16 {
            PixelFormat::Rgb
        } else if red_position == 16 && green_position == 8 && blue_position == 0 {
            PixelFormat::Bgr
        } else {
            PixelFormat::Unknown { red_position, green_position, blue_position }
        }
    }

    /// The layout of a pixel whose channels start at the given bits.
    pub fn from_positions(red_position: u8, green_position: u8, blue_position: u8) -> (format:
        PixelFormat)
        ensures
            format == Self::of_positions(red_position, green_position, blue_position),
    {
        if red_position == 0 && green_position == 8 && blue_position == 16 {
            PixelFormat::Rgb
        } else if red_position == 16 && green_position == 8 && blue_position == 0 {
            PixelFormat::Bgr
        } else {
            PixelFormat::Unknown { red_position, green_position, blue_position }
        }
    }

    /// Whether the layout is neither `Rgb` nor `Bgr`.
    pub fn is_unknown(&self) -> (unknown: bool)
        ensures
            unknown == (*self is Unknown),
    {
        match self {
            PixelFormat::Rgb | PixelFormat::Bgr => false,
            PixelFormat::Unknown { .. } => true,
        }
    }
}

/// The order of the colour channels in a pixel, as the logger takes it.
#[derive(Clone, Copy, Debug, PartialEq, Eq, Structural)]
pub enum PixelFormat2 {
    /// Red in the lowest byte, then green, then blue.
    Rgb,
    /// Blue in the lowest byte, then green, then red.
    Bgr,
    /// One byte of grey.
    U8,
    /// Another layout, with the bit at which each channel starts.
    Unknown {
        /// The lowest bit of the red channel.
        red_position: u8,
        /// The lowest bit of the green channel.
        green_position: u8,
        /// The lowest bit of the blue channel.
        blue_position: u8,
    },
}

impl PixelFormat2 {
    /// The layout that stands for `format`.
    pub open spec fn of(format: PixelFormat) -> PixelFormat2 {
        match format {
            PixelFormat::Rgb => PixelFormat2::Rgb,
            PixelFormat::Bgr => PixelFormat2::Bgr,
            PixelFormat::Unknown { red_position, green_position, blue_position } => {
                PixelFormat2::Unknown { red_position, green_position, blue_position }
            },
        }
    }

    /// The layout that stands for `format`.
    pub fn from_pixel_format(format: PixelFormat) -> (converted: PixelFormat2)
        ensures
            converted == Self::of(format),
    {
        match format {
            PixelFormat::Rgb => PixelFormat2::Rgb,
            PixelFormat::Bgr => PixelFormat2::Bgr,
            PixelFormat::Unknown { red_position, green_position, blue_position } => {
                PixelFormat2::Unknown { red_position, green_position, blue_position }
            },
        }
    }
}

/// The framebuffer as the firmware's video mode describes it.
#[derive(Clone, Copy, Debug, PartialEq, Eq, Structural)]
pub struct BiosFramebufferInfo {
    /// The memory of the framebuffer.
    pub region: Region,
    /// The width in pixels.
    pub width: u16,
    /// The height in pixels.
    pub height: u16,
    /// The number of bytes of a pixel.
    pub bytes_per_pixel: u8,
    /// The number of pixels from the start of a line to the start of the
    /// next.
    pub stride: u16,
    /// The layout of a pixel.
    pub pixel_format: PixelFormat,
}

/// The boot information.
#[derive(Clone, Copy, Debug, PartialEq, Eq, Structural)]
pub struct BiosInfo {
    /// Where the third stage lies.
    pub stage_3: Region,
    /// Where the kernel lies.
    pub kernel: Region,
    /// Where the ramdisk lies.
    pub ramdisk: Region,
    /// Where the configuration file lies.
    pub config_file: Region,
    /// The highest address that the stages have used.
    pub last_used_addr: u64,
    /// The framebuffer.
    pub framebuffer: BiosFramebufferInfo,
    /// The address of the memory map.
    pub memory_map_addr: u32,
    /// The number of regions in the memory map.
    pub memory_map_len: u16,
}

impl BiosInfo {
    /// The four regions of loaded artifacts, in the order of the fields.
    pub open spec fn regions(self) -> Seq<Region> {
        seq![self.stage_3, self.kernel, self.ramdisk, self.config_file]
    }

    /// Whether no two of the regions of loaded artifacts have a byte in
    /// common.
    pub open spec fn regions_disjoint(self) -> bool {
        forall|i: int, j: int|
            0 <= i < j < 4 ==> !(#[trigger] self.regions()[i]).spec_overlaps(
                #[trigger] self.regions()[j],
            )
    }

    /// Whether no two of the regions of loaded artifacts have a byte in
    /// common.
    pub fn has_disjoint_regions(&self) -> (disjoint: bool)
        ensures
            disjoint == self.regions_disjoint(),
    {
        let disjoint = !self.stage_3.overlaps(&self.kernel) && !self.stage_3.overlaps(&self.ramdisk)
            && !self.stage_3.overlaps(&self.config_file) && !self.kernel.overlaps(&self.ramdisk)
            && !self.kernel.overlaps(&self.config_file) && !self.ramdisk.overlaps(
            &self.config_file,
        );
        proof {
            let regions = self.regions();
            assert(regions[0] == self.stage_3 && regions[1] == self.kernel && regions[2]
                == self.ramdisk && regions[3] == self.config_file);
            if disjoint {
                assert forall|i: int, j: int| 0 <= i < j < 4 implies !(#[trigger] regions[i]).spec_overlaps(
                    #[trigger] regions[j],
                ) by {}
            } else {
                if self.stage_3.spec_overlaps(self.kernel) {
                    assert(regions[0].spec_overlaps(regions[1]));
                } else if self.stage_3.spec_overlaps(self.ramdisk) {
                    assert(regions[0].spec_overlaps(regions[2]));
                } else if self.stage_3.spec_overlaps(self.config_file) {
                    assert(regions[0].spec_overlaps(regions[3]));
                } else if self.kernel.spec_overlaps(self.ramdisk) {
                    assert(regions[1].spec_overlaps(regions[2]));
                } else if self.kernel.spec_overlaps(self.config_file) {
                    assert(regions[1].spec_overlaps(regions[3]));
                } else {
                    assert(regions[2].spec_overlaps(regions[3]));
                }
            }
        }
        disjoint
    }
}

/// One region of the firmware's memory map.
#[derive(Clone, Copy, Debug, PartialEq, Eq, Structural)]
pub struct E820MemoryRegion {
    /// The address of the first byte.
    pub start_addr: u64,
    /// The number of bytes.
    pub len: u64,
    /// What the memory is, in the firmware's numbering.
    pub region_type: u32,
    /// The extended attributes.
    pub acpi_extended_attributes: u32,
}

/// The framebuffer as the logger takes it.
#[derive(Clone, Copy, Debug, PartialEq, Eq, Structural)]
pub struct FrameBufferInfo {
    /// The total size in bytes.
    pub byte_len: usize,
    /// The width in pixels.
    pub width: usize,
    /// The height in pixels.
    pub height: usize,
    /// The layout of a pixel.
    pub pixel_format: PixelFormat2,
    /// The number of bytes of a pixel.
    pub bytes_per_pixel: usize,
    /// The number of pixels from the start of a line to the start of the
    /// next, which may be more than the width.
    pub stride: usize,
}

impl FrameBufferInfo {
    /// The description that the logger takes of the framebuffer `info`. The
    /// framebuffer's size has to fit the machine's addresses.
    pub fn from_bios(info: &BiosFramebufferInfo) -> (converted: FrameBufferInfo)
        requires
            info.region.len <= usize::MAX,
        ensures
            converted == (FrameBufferInfo {
                byte_len: info.region.len as usize,
                width: info.width as usize,
                height: info.height as usize,
                pixel_format: PixelFormat2::of(info.pixel_format),
                bytes_per_pixel: info.bytes_per_pixel as usize,
                stride: info.stride as usize,
            }),
    {
        FrameBufferInfo {
            byte_len: info.region.len as usize,
            width: info.width as usize,
            height: info.height as usize,
            pixel_format: PixelFormat2::from_pixel_format(info.pixel_format),
            bytes_per_pixel: info.bytes_per_pixel as usize,
            stride: info.stride as usize,
        }
    }
}

/// How much the logger reports.
#[derive(Clone, Copy, Debug, PartialEq, Eq, PartialOrd, Ord, Hash, Structural)]
pub enum LevelFilter {
    /// Nothing.
    Off,
    /// Errors.
    Error,
    /// Warnings and what is above.
    Warn,
    /// Information and what is above.
    Info,
    /// Debugging output and what is above.
    Debug,
    /// Everything.
    Trace,
}

} // verus!
