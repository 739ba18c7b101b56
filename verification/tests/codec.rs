use aboot_crafter::android::{
    AndroidBootFile, AndroidHeader, AndroidHeaderVersion0, AndroidHeaderVersion1,
    AndroidHeaderVersion2, AndroidHeaderVersion3, AndroidHeaderVersion4,
};
use aboot_crafter::fields::{
    AddressU32, AddressU64, AndroidBootMagic, Cmdline, CmdlineExtended, ExtraCmdline, Id, Name,
    OSVersion,
};
use aboot_crafter::headers::BootHeader;
use aboot_crafter::AbootCrafterError;

fn sample_v0() -> AndroidHeaderVersion0 {
    AndroidHeaderVersion0 {
        magic: AndroidBootMagic::default(),
        kernel_size: 5000,
        kernel_addr: AddressU32::from_text("0x00008000"),
        ramdisk_size: 1234,
        ramdisk_addr: AddressU32::from_text("0x01000000"),
        second_size: 77,
        second_addr: AddressU32::from_text("0x00000000"),
        tags_addr: AddressU32::from_text("0x00000100"),
        page_size: 2048,
        header_version: 0,
        os_version: OSVersion::from_text("4.9.86 (2012-03)"),
        name: Name::from_text("product"),
        cmdline: Cmdline::from_text("console=ttyS0"),
        id: Id::from_text("abc"),
        extra_cmdline: ExtraCmdline::from_text("quiet"),
    }
}

#[test]
fn round_trip_v0() {
    let h = sample_v0();
    let bytes = h.encode();
    assert_eq!(bytes.len(), 1608);
    let back = match AndroidHeader::decode(&bytes) {
        Ok(AndroidHeader::V0(b)) => b,
        _ => panic!("expected a version-0 header"),
    };
    assert_eq!(back.kernel_size, 5000);
    assert_eq!(back.ramdisk_size, 1234);
    assert_eq!(back.second_size, 77);
    assert_eq!(back.page_size, 2048);
    assert_eq!(back.header_version, 0);
    assert_eq!(back.kernel_addr.value(), 0x8000);
    assert_eq!(back.ramdisk_addr.value(), 0x01000000);
    assert_eq!(back.tags_addr.value(), 0x100);
    assert_eq!(back.name.0, h.name.0);
    assert_eq!(back.cmdline.0, h.cmdline.0);
    assert_eq!(back.id.0, h.id.0);
    assert_eq!(back.extra_cmdline.0, h.extra_cmdline.0);
    assert_eq!(back.os_version.0, h.os_version.0);
}

#[test]
fn round_trip_v1() {
    let base = sample_v0();
    let h = AndroidHeaderVersion1 {
        magic: AndroidBootMagic::default(),
        kernel_size: 11,
        kernel_addr: base.kernel_addr.clone(),
        ramdisk_size: 22,
        ramdisk_addr: base.ramdisk_addr.clone(),
        second_size: 0,
        second_addr: base.second_addr.clone(),
        tags_addr: base.tags_addr.clone(),
        page_size: 4096,
        header_version: 1,
        os_version: OSVersion::from_text("9.0.0 (2010-09)"),
        name: Name::from_text("x"),
        cmdline: Cmdline::from_text(""),
        id: Id::from_text(""),
        extra_cmdline: ExtraCmdline::from_text(""),
        recovery_dtbo_size: 33,
        recovery_dtbo_offset: AddressU64::from_text("0x0000000000001000"),
        header_size: 1624,
    };
    let bytes = h.encode();
    assert_eq!(bytes.len(), 1624);
    let back = match AndroidHeader::decode(&bytes) {
        Ok(AndroidHeader::V1(b)) => b,
        _ => panic!("expected a version-1 header"),
    };
    assert_eq!(back.kernel_size, 11);
    assert_eq!(back.ramdisk_size, 22);
    assert_eq!(back.recovery_dtbo_size, 33);
    assert_eq!(back.recovery_dtbo_offset.value(), 0x1000);
    assert_eq!(back.header_size, 1624);
    assert_eq!(back.header_version, 1);
}

#[test]
fn round_trip_v2() {
    let base = sample_v0();
    let h = AndroidHeaderVersion2 {
        magic: AndroidBootMagic::default(),
        kernel_size: 1,
        kernel_addr: base.kernel_addr.clone(),
        ramdisk_size: 2,
        ramdisk_addr: base.ramdisk_addr.clone(),
        second_size: 3,
        second_addr: base.second_addr.clone(),
        tags_addr: base.tags_addr.clone(),
        page_size: 2048,
        header_version: 2,
        os_version: OSVersion::from_text("11.0.0 (2011-11)"),
        name: Name::from_text("dev"),
        cmdline: Cmdline::from_text("a=b"),
        id: Id::from_text("id"),
        extra_cmdline: ExtraCmdline::from_text("c=d"),
        recovery_dtbo_size: 4,
        recovery_dtbo_offset: AddressU64::from_text("0x20"),
        header_size: 1636,
        dtb_size: 5,
        dtb_addr: AddressU64::from_text("0x40"),
    };
    let bytes = h.encode();
    assert_eq!(bytes.len(), 1636);
    let back = match AndroidHeader::decode(&bytes) {
        Ok(AndroidHeader::V2(b)) => b,
        _ => panic!("expected a version-2 header"),
    };
    assert_eq!(back.dtb_size, 5);
    assert_eq!(back.dtb_addr.value(), 0x40);
    assert_eq!(back.recovery_dtbo_size, 4);
    assert_eq!(back.header_version, 2);
}

#[test]
fn round_trip_v3() {
    let h = AndroidHeaderVersion3 {
        magic: AndroidBootMagic::default(),
        kernel_size: 9,
        ramdisk_size: 8,
        os_version: OSVersion::from_text("12.0.0 (2013-01)"),
        header_size: 1580,
        reserved: [0, 0, 0, 0],
        header_version: 3,
        cmdline: CmdlineExtended::from_text("root=/dev/ram0"),
    };
    let bytes = h.encode();
    assert_eq!(bytes.len(), 1580);
    let back = match AndroidHeader::decode(&bytes) {
        Ok(AndroidHeader::V3(b)) => b,
        _ => panic!("expected a version-3 header"),
    };
    assert_eq!(back.kernel_size, 9);
    assert_eq!(back.ramdisk_size, 8);
    assert_eq!(back.header_size, 1580);
    assert_eq!(back.header_version, 3);
    assert_eq!(back.cmdline.0, h.cmdline.0);
}

#[test]
fn round_trip_v4() {
    let h = AndroidHeaderVersion4 {
        magic: AndroidBootMagic::default(),
        kernel_size: 6,
        ramdisk_size: 7,
        os_version: OSVersion::from_text("13.0.0 (2014-02)"),
        header_size: 1584,
        reserved: [0, 0, 0, 0],
        header_version: 4,
        cmdline: CmdlineExtended::from_text(""),
        signature_size: 4096,
    };
    let bytes = h.encode();
    assert_eq!(bytes.len(), 1584);
    let back = match AndroidHeader::decode(&bytes) {
        Ok(AndroidHeader::V4(b)) => b,
        _ => panic!("expected a version-4 header"),
    };
    assert_eq!(back.signature_size, 4096);
    assert_eq!(back.header_version, 4);
}

#[test]
fn decode_rejects_bad_magic() {
    let mut bytes = sample_v0().encode();
    bytes[0] = b'X';
    match AndroidHeader::decode(&bytes) {
        Err(AbootCrafterError::InvalidMagic) => {},
        _ => panic!("a bad magic must fail with InvalidMagic"),
    }
    // entirely unrelated content fails the same way
    let junk = vec![0x55u8; 4096];
    match AndroidHeader::decode(&junk) {
        Err(AbootCrafterError::InvalidMagic) => {},
        _ => panic!("junk must fail with InvalidMagic"),
    }
}

#[test]
fn error_labels_name_each_variant() {
    assert_eq!(AbootCrafterError::InvalidMagic.label(), "invalid magic");
    assert_eq!(AbootCrafterError::UnsupportedVersion.label(), "unsupported version");
    assert_eq!(AbootCrafterError::TruncatedHeader.label(), "truncated header");
}

#[test]
fn decode_rejects_truncated() {
    let bytes = sample_v0().encode();
    match AndroidHeader::decode(&bytes[..100]) {
        Err(AbootCrafterError::TruncatedHeader) => {},
        _ => panic!("a short file must fail with TruncatedHeader"),
    }
}

#[test]
fn decode_unknown_version_falls_back_to_v0() {
    let mut h = sample_v0();
    h.header_version = 9;
    let bytes = h.encode();
    match AndroidHeader::decode(&bytes) {
        Ok(AndroidHeader::V0(b)) => {
            assert_eq!(b.header_version, 9);
            assert_eq!(b.kernel_size, 5000);
        },
        _ => panic!("an unknown version must decode leniently as version 0"),
    }
}

#[test]
fn v3_page_size_is_fixed() {
    let h = AndroidHeaderVersion3 {
        magic: AndroidBootMagic::default(),
        kernel_size: 1,
        ramdisk_size: 1,
        os_version: OSVersion::from_text(""),
        header_size: 0,
        reserved: [0, 0, 0, 0],
        header_version: 3,
        cmdline: CmdlineExtended::from_text(""),
    };
    let bytes = h.encode();
    let mut boot = AndroidBootFile::default();
    boot.load(&bytes).expect("load");
    assert_eq!(boot.version, 3);
    assert_eq!(boot.get_page_size(), 4096);
    assert_eq!(boot.get_second_size(), None);
}

#[test]
fn boot_header_surface_matches() {
    let bytes = sample_v0().encode();
    BootHeader::validate_magic(&bytes).expect("magic");
    assert_eq!(BootHeader::get_version(&bytes).expect("version"), 0);
    let h = BootHeader::read_header(&bytes).expect("read");
    let out = h.write_header();
    assert_eq!(out, bytes);
}

#[test]
fn save_pads_header_to_one_page() {
    let mut boot = AndroidBootFile::default();
    let bytes = sample_v0().encode();
    boot.load(&bytes).expect("load");
    let page = boot.save(2048);
    assert_eq!(page.len(), 2048);
    assert_eq!(&page[..1608], &bytes[..]);
    assert!(page[1608..].iter().all(|&b| b == 0));
}
