use bios_bootloader::boot_info::{
    BiosFramebufferInfo, BiosInfo, FrameBufferInfo, PixelFormat, PixelFormat2, Region,
};
use bios_bootloader::stage1::{
    assemble_bios_info, stage_2_name, stage_3_name, stage_regions, MAX_HEIGHT, MAX_WIDTH,
    STAGE_2_DST, STAGE_3_DST,
};
use bios_bootloader::vesa::{
    check_status, consider, far_pointer_address, get_best_mode, get_mode, mode_numbers, VesaInfo,
    VesaModeInfo,
};

fn mode(number: u16, width: u16, height: u16, bits: u8) -> VesaModeInfo {
    let mut block = [0u8; 256];
    block[0..2].copy_from_slice(&0x009bu16.to_le_bytes());
    block[16..18].copy_from_slice(&(width * u16::from(bits / 8)).to_le_bytes());
    block[18..20].copy_from_slice(&width.to_le_bytes());
    block[20..22].copy_from_slice(&height.to_le_bytes());
    block[25] = bits;
    block[27] = if bits == 8 { 4 } else { 6 };
    block[32] = 16;
    block[34] = 8;
    block[36] = 0;
    block[40..44].copy_from_slice(&0xfd00_0000u32.to_le_bytes());
    VesaModeInfo::from_block(number, &block)
}

#[test]
fn mode_description_is_read() {
    let info = mode(0x118, 1024, 768, 32);
    assert_eq!(
        info,
        VesaModeInfo {
            mode: 0x118,
            width: 1024,
            height: 768,
            framebuffer_start: 0xfd00_0000,
            bytes_per_scanline: 4096,
            bytes_per_pixel: 4,
            pixel_format: PixelFormat::Bgr,
            memory_model: 6,
            attributes: 0x009b,
        }
    );
    assert_eq!(info.pixels(), 786_432);
    assert_eq!(info.enable_request(), 0x4118);
}

#[test]
fn pixel_format_follows_channel_positions() {
    assert_eq!(PixelFormat::from_positions(0, 8, 16), PixelFormat::Rgb);
    assert_eq!(PixelFormat::from_positions(16, 8, 0), PixelFormat::Bgr);
    assert_eq!(
        PixelFormat::from_positions(11, 5, 0),
        PixelFormat::Unknown { red_position: 11, green_position: 5, blue_position: 0 }
    );
    assert_eq!(
        PixelFormat::from_positions(0, 8, 17),
        PixelFormat::Unknown { red_position: 0, green_position: 8, blue_position: 17 }
    );
    assert!(!PixelFormat::Rgb.is_unknown());
    assert!(!PixelFormat::Bgr.is_unknown());
    assert!(PixelFormat::from_positions(1, 2, 3).is_unknown());
}

#[test]
fn best_mode_is_the_largest_within_the_bound() {
    let modes = [mode(1, 640, 480, 8), mode(2, 1024, 768, 32), mode(3, 1920, 1080, 32)];
    assert_eq!(get_best_mode(&modes, 1280, 720), Some(modes[1]));
    assert_eq!(get_best_mode(&modes, 100, 100), None);
    assert_eq!(get_best_mode(&modes, 1920, 1080), Some(modes[2]));
    assert_eq!(get_best_mode(&modes, 640, 480), Some(modes[0]));
    assert_eq!(get_best_mode(&modes, 640, 479), None);
    assert_eq!(get_best_mode(&[], 1280, 720), None);
    assert_eq!(get_best_mode(&modes, 0xffff, 0xffff), Some(modes[2]));
}

#[test]
fn colour_depth_breaks_ties_and_the_first_mode_wins_among_equals() {
    let modes = [
        mode(1, 800, 600, 16),
        mode(2, 800, 600, 32),
        mode(3, 600, 800, 32),
        mode(4, 800, 600, 24),
        mode(5, 800, 600, 32),
    ];
    assert_eq!(get_best_mode(&modes, 800, 600), Some(modes[1]));
    assert_eq!(get_best_mode(&modes[2..], 800, 600), Some(modes[2]));
    assert_eq!(get_best_mode(&modes[3..], 800, 600), Some(modes[4]));
    assert_eq!(consider(None, modes[0], 800, 600), Some(modes[0]));
    assert_eq!(consider(None, modes[0], 799, 600), None);
    assert_eq!(consider(Some(modes[0]), modes[1], 800, 600), Some(modes[1]));
    assert_eq!(consider(Some(modes[1]), modes[0], 800, 600), Some(modes[1]));
    assert_eq!(consider(Some(modes[1]), modes[4], 800, 600), Some(modes[1]));
    assert_eq!(consider(Some(modes[1]), mode(6, 1024, 768, 8), 800, 600), Some(modes[1]));
    assert_eq!(consider(Some(modes[1]), mode(6, 1024, 768, 8), 1024, 768), Some(mode(6, 1024, 768, 8)));
}

#[test]
fn mode_list_ends_at_the_end_mark() {
    let list = [0x100u16, 0x118, 0xffff, 0x11b];
    assert_eq!(get_mode(&list, 0), Some(0x100));
    assert_eq!(get_mode(&list, 1), Some(0x118));
    assert_eq!(get_mode(&list, 2), None);
    assert_eq!(get_mode(&list, 3), Some(0x11b));
    assert_eq!(mode_numbers(&list), vec![0x100, 0x118]);
    assert_eq!(mode_numbers(&[0xffff]), Vec::<u16>::new());
    assert_eq!(mode_numbers(&[1, 2, 3]), vec![1, 2, 3]);
    assert_eq!(mode_numbers(&[]), Vec::<u16>::new());
}

#[test]
fn firmware_status_and_pointers() {
    assert_eq!(check_status(0x004f), Ok(()));
    assert_eq!(check_status(0x014f), Err(0x014f));
    assert_eq!(check_status(0), Err(0));
    assert_eq!(far_pointer_address(0xc000_0022), 0xc_0022);
    assert_eq!(far_pointer_address(0xffff_ffff), 0xffff0 + 0xffff);
    assert_eq!(far_pointer_address(0x0000_1234), 0x1234);
    let mut block = [0u8; 512];
    block[..4].copy_from_slice(b"VESA");
    block[14..18].copy_from_slice(&0xc000_0022u32.to_le_bytes());
    let info = VesaInfo::from_block(&block);
    assert_eq!(info, VesaInfo { video_mode_ptr: 0xc000_0022 });
    assert_eq!(info.mode_list_address(), 0xc_0022);
}

#[test]
fn boot_information_holds_the_framebuffer_of_the_mode() {
    let chosen = mode(0x118, 1024, 768, 32);
    let empty = Region { start: 0, len: 0 };
    let stage_3 = Region { start: 0x13_0000, len: 0x8000 };
    let info = assemble_bios_info(&chosen, stage_3);
    assert_eq!(
        info,
        BiosInfo {
            stage_3,
            kernel: empty,
            ramdisk: empty,
            config_file: empty,
            last_used_addr: 0,
            framebuffer: BiosFramebufferInfo {
                region: Region { start: 0xfd00_0000, len: 768 * 4096 },
                width: 1024,
                height: 768,
                bytes_per_pixel: 4,
                stride: 1024,
                pixel_format: PixelFormat::Bgr,
            },
            memory_map_addr: 0,
            memory_map_len: 0,
        }
    );
    assert_eq!(chosen.framebuffer_info(), info.framebuffer);
    assert!(info.has_disjoint_regions());
    assert_eq!(
        FrameBufferInfo::from_bios(&info.framebuffer),
        FrameBufferInfo {
            byte_len: 768 * 4096,
            width: 1024,
            height: 768,
            pixel_format: PixelFormat2::Bgr,
            bytes_per_pixel: 4,
            stride: 1024,
        }
    );
}

#[test]
fn pixel_formats_are_converted_for_the_logger() {
    assert_eq!(PixelFormat2::from_pixel_format(PixelFormat::Rgb), PixelFormat2::Rgb);
    assert_eq!(PixelFormat2::from_pixel_format(PixelFormat::Bgr), PixelFormat2::Bgr);
    assert_eq!(
        PixelFormat2::from_pixel_format(PixelFormat::Unknown {
            red_position: 1,
            green_position: 2,
            blue_position: 3
        }),
        PixelFormat2::Unknown { red_position: 1, green_position: 2, blue_position: 3 }
    );
}

#[test]
fn regions_overlap_where_they_share_a_byte() {
    let region = |start, len| Region { start, len };
    assert!(region(10, 10).overlaps(&region(19, 1)));
    assert!(!region(10, 10).overlaps(&region(20, 1)));
    assert!(!region(10, 10).overlaps(&region(0, 10)));
    assert!(region(10, 10).overlaps(&region(0, 11)));
    assert!(!region(10, 0).overlaps(&region(0, 100)));
    assert!(!region(0, 100).overlaps(&region(10, 0)));
    assert!(!region(u64::MAX, 5).overlaps(&region(0, u64::MAX)));
    assert!(region(u64::MAX - 1, 5).overlaps(&region(0, u64::MAX)));
    assert!(region(5, u64::MAX).overlaps(&region(u64::MAX - 1, 1)));
    assert_eq!(Region::empty(), region(0, 0));
    let mut info = assemble_bios_info(&mode(0x118, 1024, 768, 32), region(0x13_0000, 0x100));
    info.kernel = region(0x10_0000, 0x1000);
    info.ramdisk = region(0x10_0fff, 0x10);
    assert!(!info.has_disjoint_regions());
    info.ramdisk = region(0x10_1000, 0x10);
    assert!(info.has_disjoint_regions());
}

#[test]
fn loaded_stages_do_not_overlap() {
    let region = |start, len| Region { start, len };
    assert_eq!((STAGE_2_DST, STAGE_3_DST), (0x10_0000, 0x13_0000));
    assert_eq!((MAX_WIDTH, MAX_HEIGHT), (1280, 720));
    assert_eq!((stage_2_name(), stage_3_name()), ("boot-stage-2", "boot-stage-3"));
    assert_eq!(
        stage_regions(0x3_0000, 0x1000),
        Some((region(0x10_0000, 0x3_0000), region(0x13_0000, 0x1000)))
    );
    assert_eq!(stage_regions(0x3_0001, 0x1000), None);
    assert_eq!(stage_regions(0, 0), Some((region(0x10_0000, 0), region(0x13_0000, 0))));
    assert_eq!(
        stage_regions(1, 0xffed_0000),
        Some((region(0x10_0000, 1), region(0x13_0000, 0xffed_0000)))
    );
    assert_eq!(stage_regions(1, 0xffed_0001), None);
    assert_eq!(stage_regions(u64::MAX, u64::MAX), None);
}
