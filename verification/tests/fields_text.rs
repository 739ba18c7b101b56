use aboot_crafter::cli::{
    address32_value_parser, address64_value_parser, ascii_string_value_parser,
    AndroidBootPageSizes,
};
use aboot_crafter::fields::{AddressU32, AddressU64, Name, OSVersion};
use aboot_crafter::types::BootImgHeader;
use aboot_crafter::utils::{read_header, write_header};
use aboot_crafter::AbootCrafterError;

#[test]
fn os_version_round_trips_in_range() {
    let v = OSVersion::from_text("4.9.86 (2012-03)");
    assert_eq!(v.major(), 4);
    assert_eq!(v.minor(), 9);
    assert_eq!(v.patch(), 86);
    assert_eq!(v.year(), 2012);
    assert_eq!(v.month(), 3);
    assert_eq!(v.display_string(), "4.9.86 (2012-03)");
    let back = OSVersion::from_text(&v.display_string());
    assert_eq!(back.0, v.0);
}

#[test]
fn os_version_out_of_range_components_truncate() {
    // a patch level above 127 and a year past 2015 exceed the packed
    // field widths, so they come back reduced modulo those widths
    let v = OSVersion::from_text("4.9.186 (2021-03)");
    assert_eq!(v.major(), 4);
    assert_eq!(v.minor(), 9);
    assert_eq!(v.patch(), 186 & 0x7F);
    assert_eq!(v.year(), 2000 + (21 & 0xF));
    assert_eq!(v.month(), 3);
    assert_eq!(v.display_string(), "4.9.58 (2005-03)");
}

#[test]
fn os_version_missing_components_decode_to_zero() {
    let v = OSVersion::from_text("4.9");
    assert_eq!(v.0, 0);
    assert_eq!(v.display_string(), "0.0.0 (2000-00)");
    let empty = OSVersion::from_text("");
    assert_eq!(empty.0, 0);
}

#[test]
fn address32_parses_hex_and_decimal() {
    assert_eq!(AddressU32::from_text("0x00008000").value(), 0x8000);
    assert_eq!(AddressU32::from_text("4096").value(), 4096);
    assert_eq!(AddressU32::from_text("garbage").value(), 0);
    assert_eq!(AddressU32::from_text("0xZZ").value(), 0);
    assert_eq!(AddressU32::from_text("0x1ffffffff").value(), 0);
    assert_eq!(AddressU32::from_text("0x00008000").display_string(), "0x00008000");
}

#[test]
fn address64_parses_hex_and_decimal() {
    assert_eq!(AddressU64::from_text("0x0000000000001000").value(), 0x1000);
    assert_eq!(AddressU64::from_text("65536").value(), 65536);
    assert_eq!(AddressU64::from_text("nope").value(), 0);
    assert_eq!(
        AddressU64::from_text("0xdeadbeef").display_string(),
        "0x00000000deadbeef"
    );
}

#[test]
fn text_fields_truncate_and_pad() {
    let long = "a-very-long-product-name-beyond-width";
    let n = Name::from_text(long);
    assert_eq!(n.0.len(), 16);
    assert_eq!(&n.0[..], &long.as_bytes()[..16]);
    assert_eq!(n.display_string(), &long[..16]);
    let short = Name::from_text("abc");
    assert_eq!(short.0.len(), 16);
    assert_eq!(&short.0[..3], b"abc");
    assert!(short.0[3..].iter().all(|&b| b == 0));
    assert_eq!(short.display_string(), "abc");
}

#[test]
fn ascii_parser_accepts_ascii_only() {
    assert_eq!(ascii_string_value_parser("console=ttyS0").unwrap(), "console=ttyS0");
    assert!(ascii_string_value_parser("caf\u{e9}").is_err());
}

#[test]
fn address_parsers_demand_hex_prefix() {
    assert_eq!(address32_value_parser("0x00008000").unwrap(), "0x00008000");
    assert!(address32_value_parser("8000").is_err());
    assert!(address32_value_parser("0x").is_err());
    assert!(address32_value_parser("0x1ffffffff").is_err());
    assert_eq!(
        address64_value_parser("0x0000000000001000").unwrap(),
        "0x0000000000001000"
    );
    assert!(address64_value_parser("1000").is_err());
}

#[test]
fn page_size_choices_are_the_known_powers() {
    assert_eq!(AndroidBootPageSizes::_2048.as_u32(), 2048);
    assert_eq!(AndroidBootPageSizes::_4096.as_u32(), 4096);
    assert_eq!(AndroidBootPageSizes::_8192.as_u32(), 8192);
    assert_eq!(AndroidBootPageSizes::_16384.as_u32(), 16384);
}

#[test]
fn flat_header_round_trips() {
    let mut h = BootImgHeader::default();
    h.kernel_size = 123;
    h.kernel_addr = 0x8000;
    h.ramdisk_size = 456;
    h.page_size = 2048;
    h.name[0] = b'n';
    h.cmdline[0] = b'c';
    h.id = [1, 2, 3, 4, 5, 6, 7, 8];
    let bytes = write_header(&h);
    assert_eq!(bytes.len(), 608);
    let back = read_header(&bytes).expect("read");
    assert_eq!(back.kernel_size, 123);
    assert_eq!(back.kernel_addr, 0x8000);
    assert_eq!(back.ramdisk_size, 456);
    assert_eq!(back.page_size, 2048);
    assert_eq!(back.name, h.name);
    assert_eq!(back.cmdline[..], h.cmdline[..]);
    assert_eq!(back.id, h.id);
}

#[test]
fn flat_header_demands_magic() {
    let mut h = BootImgHeader::default();
    h.magic[0] = b'Z';
    let bytes = write_header(&h);
    match read_header(&bytes) {
        Err(AbootCrafterError::InvalidMagic) => {},
        _ => panic!("a bad magic must fail with InvalidMagic"),
    }
    let good = write_header(&BootImgHeader::default());
    match read_header(&good[..20]) {
        Err(AbootCrafterError::TruncatedHeader) => {},
        _ => panic!("a short file must fail with TruncatedHeader"),
    }
}
