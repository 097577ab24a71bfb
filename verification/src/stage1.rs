//! What the first stage behind the boot sector loads, and what it hands on.

use crate::boot_info::{BiosFramebufferInfo, BiosInfo, Region};
use crate::vesa::VesaModeInfo;
use vstd::prelude::*;

verus! {

/// The physical address to which the second stage is loaded.
pub const STAGE_2_DST: u32 = 0x0010_0000;

/// The physical address to which the third stage is loaded.
pub const STAGE_3_DST: u32 = 0x0013_0000;

/// The greatest width of the video mode that is asked for.
pub const MAX_WIDTH: u16 = 1280;

/// The greatest height of the video mode that is asked for.
pub const MAX_HEIGHT: u16 = 720;

/// The name of the file that holds the second stage.
pub fn stage_2_name() -> (name: &'static str)
    ensures
        name@ == "boot-stage-2"@,
{
    "boot-stage-2"
}

/// The name of the file that holds the third stage.
pub fn stage_3_name() -> (name: &'static str)
    ensures
        name@ == "boot-stage-3"@,
{
    "boot-stage-3"
}

/// The memory that the two stages take when the second has `stage_2_len`
/// bytes and the third `stage_3_len`, if the second ends before the third
/// starts and the third ends below 4 GiB.
pub open spec fn stage_regions_spec(stage_2_len: u64, stage_3_len: u64) -> Option<(Region, Region)> {
    if STAGE_2_DST + stage_2_len <= STAGE_3_DST && STAGE_3_DST + stage_3_len <= 0x1_0000_0000 {
        Some(
            (
                Region { start: STAGE_2_DST as u64, len: stage_2_len },
                Region { start: STAGE_3_DST as u64, len: stage_3_len },
            ),
        )
    } else {
        None
    }
}

/// The memory that the two loaded stages take. There is none where the
/// second stage would reach into the third, or the third beyond 4 GiB.
pub fn stage_regions(stage_2_len: u64, stage_3_len: u64) -> (regions: Option<(Region, Region)>)
    ensures
        regions == stage_regions_spec(stage_2_len, stage_3_len),
        regions is Some ==> !regions->Some_0.0.spec_overlaps(regions->Some_0.1),
{
    let room: u64 = (STAGE_3_DST - STAGE_2_DST) as u64;
    if stage_2_len > room || stage_3_len > 0x1_0000_0000 - STAGE_3_DST as u64 {
        return None;
    }
    Some(
        (
            Region { start: STAGE_2_DST as u64, len: stage_2_len },
            Region { start: STAGE_3_DST as u64, len: stage_3_len },
        ),
    )
}

/// The boot information that the stage hands on when it has loaded the
/// third stage into `stage_3` and chosen the video mode `mode`: the place
/// of the third stage, the mode's framebuffer, and nothing yet of what later
/// stages fill in. The mode has to have at least one byte to a pixel.
pub fn assemble_bios_info(mode: &VesaModeInfo, stage_3: Region) -> (info: BiosInfo)
    requires
        mode.bytes_per_pixel > 0,
    ensures
        info == (BiosInfo {
            stage_3,
            kernel: Region { start: 0, len: 0 },
            ramdisk: Region { start: 0, len: 0 },
            config_file: Region { start: 0, len: 0 },
            last_used_addr: 0,
            framebuffer: BiosFramebufferInfo {
                region: Region {
                    start: mode.framebuffer_start as u64,
                    len: (mode.height * mode.bytes_per_scanline) as u64,
                },
                width: mode.width,
                height: mode.height,
                bytes_per_pixel: mode.bytes_per_pixel,
                stride: (mode.bytes_per_scanline as int / mode.bytes_per_pixel as int) as u16,
                pixel_format: mode.pixel_format,
            },
            memory_map_addr: 0,
            memory_map_len: 0,
        }),
        info.regions_disjoint(),
{
    let info = BiosInfo {
        stage_3,
        kernel: Region::empty(),
        ramdisk: Region::empty(),
        config_file: Region::empty(),
        last_used_addr: 0,
        framebuffer: mode.framebuffer_info(),
        memory_map_addr: 0,
        memory_map_len: 0,
    };
    assert(info.regions_disjoint()) by {
        assert forall|i: int, j: int| 0 <= i < j < 4 implies !(#[trigger] info.regions()[i]).spec_overlaps(
            #[trigger] info.regions()[j],
        ) by {
            assert(info.regions()[j].len == 0);
        }
    }
    info
}

} // verus!
