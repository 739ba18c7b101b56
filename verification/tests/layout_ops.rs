use aboot_crafter::android::{AndroidBootFile, AndroidHeader, AndroidHeaderVersion0};
use aboot_crafter::fields::{
    AddressU32, AndroidBootMagic, Cmdline, ExtraCmdline, Id, Name, OSVersion,
};
use aboot_crafter::layout::{component_offsets, pages, ComponentKind};
use aboot_crafter::ops::{create, create_v0, create_v2, create_v3, extract, pad_data_to_page_size, update};
use aboot_crafter::AbootCrafterError;

fn v0_sizes(kernel: u32, ramdisk: u32, second: u32, page: u32) -> AndroidBootFile {
    let header = AndroidHeaderVersion0 {
        magic: AndroidBootMagic::default(),
        kernel_size: kernel,
        kernel_addr: AddressU32::from_text("0x00008000"),
        ramdisk_size: ramdisk,
        ramdisk_addr: AddressU32::from_text("0x01000000"),
        second_size: second,
        second_addr: AddressU32::from_text("0x0"),
        tags_addr: AddressU32::from_text("0x100"),
        page_size: page,
        header_version: 0,
        os_version: OSVersion::from_text(""),
        name: Name::from_text(""),
        cmdline: Cmdline::from_text(""),
        id: Id::from_text(""),
        extra_cmdline: ExtraCmdline::from_text(""),
    };
    AndroidBootFile { header: AndroidHeader::V0(header), version: 0 }
}

#[test]
fn pages_uses_ceiling_division() {
    assert_eq!(pages(0, 2048), 0);
    assert_eq!(pages(1, 2048), 1);
    assert_eq!(pages(2048, 2048), 1);
    assert_eq!(pages(2049, 2048), 2);
    assert_eq!(pages(5000, 2048), 3);
}

#[test]
fn ramdisk_offset_for_5000_byte_kernel() {
    // ceil(5000 / 2048) = 3, so the kernel fills pages 1..4 and the
    // ramdisk starts at 2048 * (1 + 3).
    let boot = v0_sizes(5000, 100, 0, 2048);
    let entries = component_offsets(&boot).expect("offsets");
    assert_eq!(entries.len(), 3);
    assert_eq!(entries[0].kind, ComponentKind::Kernel);
    assert_eq!(entries[0].offset, 2048);
    assert_eq!(entries[0].size, 5000);
    assert_eq!(entries[1].kind, ComponentKind::Ramdisk);
    assert_eq!(entries[1].offset, 8192);
    assert_eq!(entries[2].kind, ComponentKind::Second);
    assert_eq!(entries[2].offset, 8192 + 2048);
}

#[test]
fn offsets_are_aligned_and_disjoint() {
    let boot = v0_sizes(7000, 4097, 1, 4096);
    let entries = component_offsets(&boot).expect("offsets");
    let p = 4096u64;
    let mut prev_end = p;
    for e in &entries {
        assert_eq!(e.offset % p, 0);
        assert!(e.offset >= prev_end);
        prev_end = e.offset + e.size as u64;
    }
}

#[test]
fn zero_page_size_is_rejected() {
    let boot = v0_sizes(1, 1, 0, 0);
    match component_offsets(&boot) {
        Err(AbootCrafterError::ConfigError(_)) => {},
        _ => panic!("page size zero must be rejected"),
    }
}

#[test]
fn padding_fills_whole_pages() {
    let padded = pad_data_to_page_size(&[1, 2, 3], 2048);
    assert_eq!(padded.len(), 2048);
    assert_eq!(&padded[..3], &[1, 2, 3]);
    assert!(padded[3..].iter().all(|&b| b == 0));
    let empty = pad_data_to_page_size(&[], 2048);
    assert_eq!(empty.len(), 0);
}

#[test]
fn synthesized_v0_image_has_expected_layout() {
    // one-byte kernel and ramdisk at page size 2048: a header page plus
    // one page each, 6144 bytes in all
    let img = create_v0(
        &[0xAA],
        &[0xBB],
        None,
        2048,
        "0x00008000",
        "0x01000000",
        "0x0",
        "0x100",
        "",
        "",
        "",
        "",
        "",
    )
    .expect("create");
    assert_eq!(img.len(), 2048 * 3);
    assert_eq!(img[2048], 0xAA);
    assert_eq!(img[4096], 0xBB);
    assert!(img[2049..4096].iter().all(|&b| b == 0));
    assert!(img[4097..].iter().all(|&b| b == 0));
    let mut boot = AndroidBootFile::default();
    boot.load(&img).expect("load");
    assert_eq!(boot.version, 0);
    assert_eq!(boot.get_kernel_size(), 1);
    assert_eq!(boot.get_ramdisk_size(), 1);
    assert_eq!(boot.get_second_size(), Some(0));
}

#[test]
fn extract_v2_with_no_second_yields_no_second() {
    let img = create_v2(
        &[1, 2, 3],
        &[4, 5],
        None,
        None,
        None,
        2048,
        "0x00008000",
        "0x01000000",
        "0x0",
        "0x100",
        "",
        "",
        "",
        "",
        "",
        "0x0",
        "0x0",
    )
    .expect("create");
    let mut boot = AndroidBootFile::default();
    boot.load(&img).expect("load");
    assert_eq!(boot.version, 2);
    let parts = extract(&img, &boot).expect("extract");
    assert!(parts.iter().all(|p| p.kind != ComponentKind::Second));
    assert!(parts.iter().all(|p| p.kind != ComponentKind::RecoveryDtbo));
    assert!(parts.iter().all(|p| p.kind != ComponentKind::Dtb));
    assert_eq!(parts.len(), 2);
    assert_eq!(parts[0].kind, ComponentKind::Kernel);
    assert_eq!(parts[0].data, vec![1, 2, 3]);
    assert_eq!(parts[1].kind, ComponentKind::Ramdisk);
    assert_eq!(parts[1].data, vec![4, 5]);
}

#[test]
fn create_v3_uses_fixed_page_size() {
    let img = create_v3(&[9], &[8, 8], "", "root=/dev/ram0");
    assert_eq!(img.len(), 4096 * 3);
    assert_eq!(img[4096], 9);
    assert_eq!(img[8192], 8);
    let mut boot = AndroidBootFile::default();
    boot.load(&img).expect("load");
    assert_eq!(boot.version, 3);
    assert_eq!(boot.get_page_size(), 4096);
}

#[test]
fn create_rejects_unsupported_version() {
    match create(
        &[1],
        &[2],
        None,
        5,
        2048,
        "0x0",
        "0x0",
        "0x0",
        "0x0",
        "",
        "",
        "",
        "",
        "",
        0,
        "0x0",
        0,
        0,
        "0x0",
        0,
    ) {
        Err(AbootCrafterError::UnsupportedVersion) => {},
        _ => panic!("versions outside 0..=4 must be rejected"),
    }
}

#[test]
fn extract_rejects_short_file() {
    let boot = v0_sizes(5000, 0, 0, 2048);
    let file = vec![0u8; 2048];
    match extract(&file, &boot) {
        Err(AbootCrafterError::IoError(_)) => {},
        _ => panic!("a segment outside the file must be an io error"),
    }
}

#[test]
fn update_replaces_kernel_and_relayouts() {
    let img = create_v0(
        &[0xAA],
        &[0xBB, 0xBC],
        None,
        2048,
        "0x00008000",
        "0x01000000",
        "0x0",
        "0x100",
        "",
        "",
        "",
        "",
        "",
    )
    .expect("create");
    let new_kernel = vec![0xCC; 3000];
    let out = update(&img, Some(&new_kernel), None, None, None, None, None, None)
        .expect("update");
    let mut boot = AndroidBootFile::default();
    boot.load(&out).expect("load");
    assert_eq!(boot.get_kernel_size(), 3000);
    assert_eq!(boot.get_ramdisk_size(), 2);
    // kernel now spans two pages, so the ramdisk moved to 2048 * 3
    assert_eq!(out.len(), 2048 * 4);
    assert_eq!(&out[2048..2048 + 3000], &new_kernel[..]);
    assert_eq!(out[2048 * 3], 0xBB);
    assert_eq!(out[2048 * 3 + 1], 0xBC);
}

#[test]
fn update_overwrites_cmdline() {
    let img = create_v0(
        &[1],
        &[2],
        None,
        2048,
        "0x0",
        "0x0",
        "0x0",
        "0x0",
        "",
        "",
        "old=1",
        "",
        "",
    )
    .expect("create");
    let out = update(&img, None, None, None, None, None, Some("new=2"), None).expect("update");
    let mut boot = AndroidBootFile::default();
    boot.load(&out).expect("load");
    match &boot.header {
        AndroidHeader::V0(h) => {
            assert_eq!(h.cmdline.display_string(), "new=2");
            assert_eq!(h.kernel_size, 1);
        },
        _ => panic!("expected version 0"),
    }
    assert_eq!(out[2048], 1);
    assert_eq!(out[4096], 2);
}

#[test]
fn update_rejects_bad_magic() {
    let junk = vec![7u8; 4096];
    match update(&junk, None, None, None, None, None, None, None) {
        Err(AbootCrafterError::InvalidMagic) => {},
        _ => panic!("update must demand the magic"),
    }
}
