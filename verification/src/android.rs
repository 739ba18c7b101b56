use vstd::prelude::*;

use crate::bytesutil::{copy_range, push_bytes, spec_zeros, zero_vec};
use crate::errors::AbootCrafterError;
use crate::fields::{
    AddressU32, AddressU64, AndroidBootMagic, Cmdline, CmdlineExtended, ExtraCmdline, Id, Name,
    OSVersion,
};
use vstd::bytes::{spec_u32_from_le_bytes, spec_u32_to_le_bytes, u32_from_le_bytes, u32_to_le_bytes};

verus! {

/// The encoded size in bytes of each header layout.
pub const HEADER_SIZE_V0: usize = 1608;

pub const HEADER_SIZE_V1: usize = 1624;

pub const HEADER_SIZE_V2: usize = 1636;

pub const HEADER_SIZE_V3: usize = 1580;

pub const HEADER_SIZE_V4: usize = 1584;

// ---------------------------------------------------------------------------
// The five header records
// ---------------------------------------------------------------------------

/// The original boot-image header, used below Android 9.
#[derive(Debug)]
pub struct AndroidHeaderVersion0 {
    pub magic: AndroidBootMagic,
    pub kernel_size: u32,
    pub kernel_addr: AddressU32,
    pub ramdisk_size: u32,
    pub ramdisk_addr: AddressU32,
    pub second_size: u32,
    pub second_addr: AddressU32,
    pub tags_addr: AddressU32,
    pub page_size: u32,
    pub header_version: u32,
    pub os_version: OSVersion,
    pub name: Name,
    pub cmdline: Cmdline,
    pub id: Id,
    pub extra_cmdline: ExtraCmdline,
}

/// The Android 9 header: the original fields plus a recovery DTBO record.
#[derive(Debug)]
pub struct AndroidHeaderVersion1 {
    pub magic: AndroidBootMagic,
    pub kernel_size: u32,
    pub kernel_addr: AddressU32,
    pub ramdisk_size: u32,
    pub ramdisk_addr: AddressU32,
    pub second_size: u32,
    pub second_addr: AddressU32,
    pub tags_addr: AddressU32,
    pub page_size: u32,
    pub header_version: u32,
    pub os_version: OSVersion,
    pub name: Name,
    pub cmdline: Cmdline,
    pub id: Id,
    pub extra_cmdline: ExtraCmdline,
    pub recovery_dtbo_size: u32,
    pub recovery_dtbo_offset: AddressU64,
    pub header_size: u32,
}

/// The Android 10 header: version 1 plus a device-tree record.
#[derive(Debug)]
pub struct AndroidHeaderVersion2 {
    pub magic: AndroidBootMagic,
    pub kernel_size: u32,
    pub kernel_addr: AddressU32,
    pub ramdisk_size: u32,
    pub ramdisk_addr: AddressU32,
    pub second_size: u32,
    pub second_addr: AddressU32,
    pub tags_addr: AddressU32,
    pub page_size: u32,
    pub header_version: u32,
    pub os_version: OSVersion,
    pub name: Name,
    pub cmdline: Cmdline,
    pub id: Id,
    pub extra_cmdline: ExtraCmdline,
    pub recovery_dtbo_size: u32,
    pub recovery_dtbo_offset: AddressU64,
    pub header_size: u32,
    pub dtb_size: u32,
    pub dtb_addr: AddressU64,
}

/// The slimmed-down Android 11 header, with a fixed 4096-byte page size.
#[derive(Debug)]
pub struct AndroidHeaderVersion3 {
    pub magic: AndroidBootMagic,
    pub kernel_size: u32,
    pub ramdisk_size: u32,
    pub os_version: OSVersion,
    pub header_size: u32,
    pub reserved: [u32; 4],
    pub header_version: u32,
    pub cmdline: CmdlineExtended,
}

/// The Android 12 header: version 3 plus a boot-signature size.
#[derive(Debug)]
pub struct AndroidHeaderVersion4 {
    pub magic: AndroidBootMagic,
    pub kernel_size: u32,
    pub ramdisk_size: u32,
    pub os_version: OSVersion,
    pub header_size: u32,
    pub reserved: [u32; 4],
    pub header_version: u32,
    pub cmdline: CmdlineExtended,
    pub signature_size: u32,
}

// ---------------------------------------------------------------------------
// Mathematical views of the records
// ---------------------------------------------------------------------------

/// The abstract value of a version-0 header: raw byte fields as sequences,
/// numeric fields as integers.
#[verifier::ext_equal]
pub struct HeaderV0View {
    pub magic: Seq<u8>,
    pub kernel_size: u32,
    pub kernel_addr: Seq<u8>,
    pub ramdisk_size: u32,
    pub ramdisk_addr: Seq<u8>,
    pub second_size: u32,
    pub second_addr: Seq<u8>,
    pub tags_addr: Seq<u8>,
    pub page_size: u32,
    pub header_version: u32,
    pub os_version: u32,
    pub name: Seq<u8>,
    pub cmdline: Seq<u8>,
    pub id: Seq<u8>,
    pub extra_cmdline: Seq<u8>,
}

#[verifier::ext_equal]
pub struct HeaderV1View {
    pub magic: Seq<u8>,
    pub kernel_size: u32,
    pub kernel_addr: Seq<u8>,
    pub ramdisk_size: u32,
    pub ramdisk_addr: Seq<u8>,
    pub second_size: u32,
    pub second_addr: Seq<u8>,
    pub tags_addr: Seq<u8>,
    pub page_size: u32,
    pub header_version: u32,
    pub os_version: u32,
    pub name: Seq<u8>,
    pub cmdline: Seq<u8>,
    pub id: Seq<u8>,
    pub extra_cmdline: Seq<u8>,
    pub recovery_dtbo_size: u32,
    pub recovery_dtbo_offset: Seq<u8>,
    pub header_size: u32,
}

#[verifier::ext_equal]
pub struct HeaderV2View {
    pub magic: Seq<u8>,
    pub kernel_size: u32,
    pub kernel_addr: Seq<u8>,
    pub ramdisk_size: u32,
    pub ramdisk_addr: Seq<u8>,
    pub second_size: u32,
    pub second_addr: Seq<u8>,
    pub tags_addr: Seq<u8>,
    pub page_size: u32,
    pub header_version: u32,
    pub os_version: u32,
    pub name: Seq<u8>,
    pub cmdline: Seq<u8>,
    pub id: Seq<u8>,
    pub extra_cmdline: Seq<u8>,
    pub recovery_dtbo_size: u32,
    pub recovery_dtbo_offset: Seq<u8>,
    pub header_size: u32,
    pub dtb_size: u32,
    pub dtb_addr: Seq<u8>,
}

#[verifier::ext_equal]
pub struct HeaderV3View {
    pub magic: Seq<u8>,
    pub kernel_size: u32,
    pub ramdisk_size: u32,
    pub os_version: u32,
    pub header_size: u32,
    pub reserved: Seq<u32>,
    pub header_version: u32,
    pub cmdline: Seq<u8>,
}

#[verifier::ext_equal]
pub struct HeaderV4View {
    pub magic: Seq<u8>,
    pub kernel_size: u32,
    pub ramdisk_size: u32,
    pub os_version: u32,
    pub header_size: u32,
    pub reserved: Seq<u32>,
    pub header_version: u32,
    pub cmdline: Seq<u8>,
    pub signature_size: u32,
}

impl HeaderV0View {
    /// Each raw byte field holds exactly its declared width.
    pub open spec fn wf(&self) -> bool {
        &&& self.magic.len() == 8
        &&& self.kernel_addr.len() == 4
        &&& self.ramdisk_addr.len() == 4
        &&& self.second_addr.len() == 4
        &&& self.tags_addr.len() == 4
        &&& self.name.len() == 16
        &&& self.cmdline.len() == 512
        &&& self.id.len() == 8
        &&& self.extra_cmdline.len() == 1024
    }
}

impl HeaderV1View {
    pub open spec fn wf(&self) -> bool {
        &&& self.magic.len() == 8
        &&& self.kernel_addr.len() == 4
        &&& self.ramdisk_addr.len() == 4
        &&& self.second_addr.len() == 4
        &&& self.tags_addr.len() == 4
        &&& self.name.len() == 16
        &&& self.cmdline.len() == 512
        &&& self.id.len() == 8
        &&& self.extra_cmdline.len() == 1024
        &&& self.recovery_dtbo_offset.len() == 8
    }
}

impl HeaderV2View {
    pub open spec fn wf(&self) -> bool {
        &&& self.magic.len() == 8
        &&& self.kernel_addr.len() == 4
        &&& self.ramdisk_addr.len() == 4
        &&& self.second_addr.len() == 4
        &&& self.tags_addr.len() == 4
        &&& self.name.len() == 16
        &&& self.cmdline.len() == 512
        &&& self.id.len() == 8
        &&& self.extra_cmdline.len() == 1024
        &&& self.recovery_dtbo_offset.len() == 8
        &&& self.dtb_addr.len() == 8
    }
}

impl HeaderV3View {
    pub open spec fn wf(&self) -> bool {
        &&& self.magic.len() == 8
        &&& self.reserved.len() == 4
        &&& self.cmdline.len() == 1536
    }
}

impl HeaderV4View {
    pub open spec fn wf(&self) -> bool {
        &&& self.magic.len() == 8
        &&& self.reserved.len() == 4
        &&& self.cmdline.len() == 1536
    }
}

impl View for AndroidHeaderVersion0 {
    type V = HeaderV0View;

    open spec fn view(&self) -> HeaderV0View {
        HeaderV0View {
            magic: self.magic.0@,
            kernel_size: self.kernel_size,
            kernel_addr: self.kernel_addr.0@,
            ramdisk_size: self.ramdisk_size,
            ramdisk_addr: self.ramdisk_addr.0@,
            second_size: self.second_size,
            second_addr: self.second_addr.0@,
            tags_addr: self.tags_addr.0@,
            page_size: self.page_size,
            header_version: self.header_version,
            os_version: self.os_version.0,
            name: self.name.0@,
            cmdline: self.cmdline.0@,
            id: self.id.0@,
            extra_cmdline: self.extra_cmdline.0@,
        }
    }
}

impl View for AndroidHeaderVersion1 {
    type V = HeaderV1View;

    open spec fn view(&self) -> HeaderV1View {
        HeaderV1View {
            magic: self.magic.0@,
            kernel_size: self.kernel_size,
            kernel_addr: self.kernel_addr.0@,
            ramdisk_size: self.ramdisk_size,
            ramdisk_addr: self.ramdisk_addr.0@,
            second_size: self.second_size,
            second_addr: self.second_addr.0@,
            tags_addr: self.tags_addr.0@,
            page_size: self.page_size,
            header_version: self.header_version,
            os_version: self.os_version.0,
            name: self.name.0@,
            cmdline: self.cmdline.0@,
            id: self.id.0@,
            extra_cmdline: self.extra_cmdline.0@,
            recovery_dtbo_size: self.recovery_dtbo_size,
            recovery_dtbo_offset: self.recovery_dtbo_offset.0@,
            header_size: self.header_size,
        }
    }
}

impl View for AndroidHeaderVersion2 {
    type V = HeaderV2View;

    open spec fn view(&self) -> HeaderV2View {
        HeaderV2View {
            magic: self.magic.0@,
            kernel_size: self.kernel_size,
            kernel_addr: self.kernel_addr.0@,
            ramdisk_size: self.ramdisk_size,
            ramdisk_addr: self.ramdisk_addr.0@,
            second_size: self.second_size,
            second_addr: self.second_addr.0@,
            tags_addr: self.tags_addr.0@,
            page_size: self.page_size,
            header_version: self.header_version,
            os_version: self.os_version.0,
            name: self.name.0@,
            cmdline: self.cmdline.0@,
            id: self.id.0@,
            extra_cmdline: self.extra_cmdline.0@,
            recovery_dtbo_size: self.recovery_dtbo_size,
            recovery_dtbo_offset: self.recovery_dtbo_offset.0@,
            header_size: self.header_size,
            dtb_size: self.dtb_size,
            dtb_addr: self.dtb_addr.0@,
        }
    }
}

impl View for AndroidHeaderVersion3 {
    type V = HeaderV3View;

    open spec fn view(&self) -> HeaderV3View {
        HeaderV3View {
            magic: self.magic.0@,
            kernel_size: self.kernel_size,
            ramdisk_size: self.ramdisk_size,
            os_version: self.os_version.0,
            header_size: self.header_size,
            reserved: self.reserved@,
            header_version: self.header_version,
            cmdline: self.cmdline.0@,
        }
    }
}

impl View for AndroidHeaderVersion4 {
    type V = HeaderV4View;

    open spec fn view(&self) -> HeaderV4View {
        HeaderV4View {
            magic: self.magic.0@,
            kernel_size: self.kernel_size,
            ramdisk_size: self.ramdisk_size,
            os_version: self.os_version.0,
            header_size: self.header_size,
            reserved: self.reserved@,
            header_version: self.header_version,
            cmdline: self.cmdline.0@,
            signature_size: self.signature_size,
        }
    }
}

// ---------------------------------------------------------------------------
// Byte layouts
// ---------------------------------------------------------------------------

/// The exact encoding of a version-0 header: every field in declaration
/// order, integers little-endian.
pub open spec fn spec_encode_v0(h: HeaderV0View) -> Seq<u8> {
    h.magic + spec_u32_to_le_bytes(h.kernel_size) + h.kernel_addr + spec_u32_to_le_bytes(
        h.ramdisk_size,
    ) + h.ramdisk_addr + spec_u32_to_le_bytes(h.second_size) + h.second_addr + h.tags_addr
        + spec_u32_to_le_bytes(h.page_size) + spec_u32_to_le_bytes(h.header_version)
        + spec_u32_to_le_bytes(h.os_version) + h.name + h.cmdline + h.id + h.extra_cmdline
}

pub open spec fn spec_encode_v1(h: HeaderV1View) -> Seq<u8> {
    h.magic + spec_u32_to_le_bytes(h.kernel_size) + h.kernel_addr + spec_u32_to_le_bytes(
        h.ramdisk_size,
    ) + h.ramdisk_addr + spec_u32_to_le_bytes(h.second_size) + h.second_addr + h.tags_addr
        + spec_u32_to_le_bytes(h.page_size) + spec_u32_to_le_bytes(h.header_version)
        + spec_u32_to_le_bytes(h.os_version) + h.name + h.cmdline + h.id + h.extra_cmdline
        + spec_u32_to_le_bytes(h.recovery_dtbo_size) + h.recovery_dtbo_offset
        + spec_u32_to_le_bytes(h.header_size)
}

pub open spec fn spec_encode_v2(h: HeaderV2View) -> Seq<u8> {
    h.magic + spec_u32_to_le_bytes(h.kernel_size) + h.kernel_addr + spec_u32_to_le_bytes(
        h.ramdisk_size,
    ) + h.ramdisk_addr + spec_u32_to_le_bytes(h.second_size) + h.second_addr + h.tags_addr
        + spec_u32_to_le_bytes(h.page_size) + spec_u32_to_le_bytes(h.header_version)
        + spec_u32_to_le_bytes(h.os_version) + h.name + h.cmdline + h.id + h.extra_cmdline
        + spec_u32_to_le_bytes(h.recovery_dtbo_size) + h.recovery_dtbo_offset
        + spec_u32_to_le_bytes(h.header_size) + spec_u32_to_le_bytes(h.dtb_size) + h.dtb_addr
}

pub open spec fn spec_encode_v3(h: HeaderV3View) -> Seq<u8> {
    h.magic + spec_u32_to_le_bytes(h.kernel_size) + spec_u32_to_le_bytes(h.ramdisk_size)
        + spec_u32_to_le_bytes(h.os_version) + spec_u32_to_le_bytes(h.header_size)
        + spec_u32_to_le_bytes(h.reserved[0]) + spec_u32_to_le_bytes(h.reserved[1])
        + spec_u32_to_le_bytes(h.reserved[2]) + spec_u32_to_le_bytes(h.reserved[3])
        + spec_u32_to_le_bytes(h.header_version) + h.cmdline
}

pub open spec fn spec_encode_v4(h: HeaderV4View) -> Seq<u8> {
    h.magic + spec_u32_to_le_bytes(h.kernel_size) + spec_u32_to_le_bytes(h.ramdisk_size)
        + spec_u32_to_le_bytes(h.os_version) + spec_u32_to_le_bytes(h.header_size)
        + spec_u32_to_le_bytes(h.reserved[0]) + spec_u32_to_le_bytes(h.reserved[1])
        + spec_u32_to_le_bytes(h.reserved[2]) + spec_u32_to_le_bytes(h.reserved[3])
        + spec_u32_to_le_bytes(h.header_version) + h.cmdline + spec_u32_to_le_bytes(
        h.signature_size,
    )
}

/// The version-0 header read from the first 1608 bytes of `b`.
pub open spec fn spec_parse_v0(b: Seq<u8>) -> HeaderV0View
    recommends
        b.len() >= 1608,
{
    HeaderV0View {
        magic: b.subrange(0, 8),
        kernel_size: spec_u32_from_le_bytes(b.subrange(8, 12)),
        kernel_addr: b.subrange(12, 16),
        ramdisk_size: spec_u32_from_le_bytes(b.subrange(16, 20)),
        ramdisk_addr: b.subrange(20, 24),
        second_size: spec_u32_from_le_bytes(b.subrange(24, 28)),
        second_addr: b.subrange(28, 32),
        tags_addr: b.subrange(32, 36),
        page_size: spec_u32_from_le_bytes(b.subrange(36, 40)),
        header_version: spec_u32_from_le_bytes(b.subrange(40, 44)),
        os_version: spec_u32_from_le_bytes(b.subrange(44, 48)),
        name: b.subrange(48, 64),
        cmdline: b.subrange(64, 576),
        id: b.subrange(576, 584),
        extra_cmdline: b.subrange(584, 1608),
    }
}

pub open spec fn spec_parse_v1(b: Seq<u8>) -> HeaderV1View
    recommends
        b.len() >= 1624,
{
    HeaderV1View {
        magic: b.subrange(0, 8),
        kernel_size: spec_u32_from_le_bytes(b.subrange(8, 12)),
        kernel_addr: b.subrange(12, 16),
        ramdisk_size: spec_u32_from_le_bytes(b.subrange(16, 20)),
        ramdisk_addr: b.subrange(20, 24),
        second_size: spec_u32_from_le_bytes(b.subrange(24, 28)),
        second_addr: b.subrange(28, 32),
        tags_addr: b.subrange(32, 36),
        page_size: spec_u32_from_le_bytes(b.subrange(36, 40)),
        header_version: spec_u32_from_le_bytes(b.subrange(40, 44)),
        os_version: spec_u32_from_le_bytes(b.subrange(44, 48)),
        name: b.subrange(48, 64),
        cmdline: b.subrange(64, 576),
        id: b.subrange(576, 584),
        extra_cmdline: b.subrange(584, 1608),
        recovery_dtbo_size: spec_u32_from_le_bytes(b.subrange(1608, 1612)),
        recovery_dtbo_offset: b.subrange(1612, 1620),
        header_size: spec_u32_from_le_bytes(b.subrange(1620, 1624)),
    }
}

pub open spec fn spec_parse_v2(b: Seq<u8>) -> HeaderV2View
    recommends
        b.len() >= 1636,
{
    HeaderV2View {
        magic: b.subrange(0, 8),
        kernel_size: spec_u32_from_le_bytes(b.subrange(8, 12)),
        kernel_addr: b.subrange(12, 16),
        ramdisk_size: spec_u32_from_le_bytes(b.subrange(16, 20)),
        ramdisk_addr: b.subrange(20, 24),
        second_size: spec_u32_from_le_bytes(b.subrange(24, 28)),
        second_addr: b.subrange(28, 32),
        tags_addr: b.subrange(32, 36),
        page_size: spec_u32_from_le_bytes(b.subrange(36, 40)),
        header_version: spec_u32_from_le_bytes(b.subrange(40, 44)),
        os_version: spec_u32_from_le_bytes(b.subrange(44, 48)),
        name: b.subrange(48, 64),
        cmdline: b.subrange(64, 576),
        id: b.subrange(576, 584),
        extra_cmdline: b.subrange(584, 1608),
        recovery_dtbo_size: spec_u32_from_le_bytes(b.subrange(1608, 1612)),
        recovery_dtbo_offset: b.subrange(1612, 1620),
        header_size: spec_u32_from_le_bytes(b.subrange(1620, 1624)),
        dtb_size: spec_u32_from_le_bytes(b.subrange(1624, 1628)),
        dtb_addr: b.subrange(1628, 1636),
    }
}

pub open spec fn spec_parse_v3(b: Seq<u8>) -> HeaderV3View
    recommends
        b.len() >= 1580,
{
    HeaderV3View {
        magic: b.subrange(0, 8),
        kernel_size: spec_u32_from_le_bytes(b.subrange(8, 12)),
        ramdisk_size: spec_u32_from_le_bytes(b.subrange(12, 16)),
        os_version: spec_u32_from_le_bytes(b.subrange(16, 20)),
        header_size: spec_u32_from_le_bytes(b.subrange(20, 24)),
        reserved: seq![
            spec_u32_from_le_bytes(b.subrange(24, 28)),
            spec_u32_from_le_bytes(b.subrange(28, 32)),
            spec_u32_from_le_bytes(b.subrange(32, 36)),
            spec_u32_from_le_bytes(b.subrange(36, 40)),
        ],
        header_version: spec_u32_from_le_bytes(b.subrange(40, 44)),
        cmdline: b.subrange(44, 1580),
    }
}

pub open spec fn spec_parse_v4(b: Seq<u8>) -> HeaderV4View
    recommends
        b.len() >= 1584,
{
    HeaderV4View {
        magic: b.subrange(0, 8),
        kernel_size: spec_u32_from_le_bytes(b.subrange(8, 12)),
        ramdisk_size: spec_u32_from_le_bytes(b.subrange(12, 16)),
        os_version: spec_u32_from_le_bytes(b.subrange(16, 20)),
        header_size: spec_u32_from_le_bytes(b.subrange(20, 24)),
        reserved: seq![
            spec_u32_from_le_bytes(b.subrange(24, 28)),
            spec_u32_from_le_bytes(b.subrange(28, 32)),
            spec_u32_from_le_bytes(b.subrange(32, 36)),
            spec_u32_from_le_bytes(b.subrange(36, 40)),
        ],
        header_version: spec_u32_from_le_bytes(b.subrange(40, 44)),
        cmdline: b.subrange(44, 1580),
        signature_size: spec_u32_from_le_bytes(b.subrange(1580, 1584)),
    }
}

// ---------------------------------------------------------------------------
// Record codecs
// ---------------------------------------------------------------------------

impl AndroidHeaderVersion0 {
    pub open spec fn wf(&self) -> bool {
        self@.wf()
    }

    /// Serializes the header into its exact 1608-byte layout.
    pub fn encode(&self) -> (r: Vec<u8>)
        requires
            self.wf(),
        ensures
            r@ == spec_encode_v0(self@),
            r@.len() == 1608,
    {
        let mut out: Vec<u8> = Vec::new();
        push_bytes(&mut out, self.magic.0.as_slice());
        let mut t = u32_to_le_bytes(self.kernel_size);
        out.append(&mut t);
        push_bytes(&mut out, self.kernel_addr.0.as_slice());
        let mut t = u32_to_le_bytes(self.ramdisk_size);
        out.append(&mut t);
        push_bytes(&mut out, self.ramdisk_addr.0.as_slice());
        let mut t = u32_to_le_bytes(self.second_size);
        out.append(&mut t);
        push_bytes(&mut out, self.second_addr.0.as_slice());
        push_bytes(&mut out, self.tags_addr.0.as_slice());
        let mut t = u32_to_le_bytes(self.page_size);
        out.append(&mut t);
        let mut t = u32_to_le_bytes(self.header_version);
        out.append(&mut t);
        let mut t = u32_to_le_bytes(self.os_version.0);
        out.append(&mut t);
        push_bytes(&mut out, self.name.0.as_slice());
        push_bytes(&mut out, self.cmdline.0.as_slice());
        push_bytes(&mut out, self.id.0.as_slice());
        push_bytes(&mut out, self.extra_cmdline.0.as_slice());
        proof {
            assert(out@ =~= spec_encode_v0(self@));
        }
        out
    }

    /// Reads a header from the first 1608 bytes of `b`.
    pub fn decode(b: &[u8]) -> (r: Self)
        requires
            b@.len() >= 1608,
        ensures
            r@ == spec_parse_v0(b@),
            r.wf(),
    {
        let r = AndroidHeaderVersion0 {
            magic: AndroidBootMagic(copy_range(b, 0, 8)),
            kernel_size: u32_from_le_bytes(&b[8..12]),
            kernel_addr: AddressU32(copy_range(b, 12, 16)),
            ramdisk_size: u32_from_le_bytes(&b[16..20]),
            ramdisk_addr: AddressU32(copy_range(b, 20, 24)),
            second_size: u32_from_le_bytes(&b[24..28]),
            second_addr: AddressU32(copy_range(b, 28, 32)),
            tags_addr: AddressU32(copy_range(b, 32, 36)),
            page_size: u32_from_le_bytes(&b[36..40]),
            header_version: u32_from_le_bytes(&b[40..44]),
            os_version: OSVersion(u32_from_le_bytes(&b[44..48])),
            name: Name(copy_range(b, 48, 64)),
            cmdline: Cmdline(copy_range(b, 64, 576)),
            id: Id(copy_range(b, 576, 584)),
            extra_cmdline: ExtraCmdline(copy_range(b, 584, 1608)),
        };
        proof {
            assert(r@ =~= spec_parse_v0(b@));
        }
        r
    }
}

impl Default for AndroidHeaderVersion0 {
    /// An all-zero header carrying only the magic.
    fn default() -> (r: Self)
        ensures
            r.wf(),
            r@.magic == crate::spec_boot_magic(),
            r@.kernel_size == 0,
            r@.ramdisk_size == 0,
            r@.second_size == 0,
            r@.page_size == 0,
            r@.header_version == 0,
            r@.os_version == 0,
    {
        AndroidHeaderVersion0 {
            magic: AndroidBootMagic::default(),
            kernel_size: 0,
            kernel_addr: AddressU32::default(),
            ramdisk_size: 0,
            ramdisk_addr: AddressU32::default(),
            second_size: 0,
            second_addr: AddressU32::default(),
            tags_addr: AddressU32::default(),
            page_size: 0,
            header_version: 0,
            os_version: OSVersion::default(),
            name: Name::default(),
            cmdline: Cmdline::default(),
            id: Id::default(),
            extra_cmdline: ExtraCmdline::default(),
        }
    }
}

impl AndroidHeaderVersion1 {
    pub open spec fn wf(&self) -> bool {
        self@.wf()
    }

    /// Serializes the header into its exact 1624-byte layout.
    pub fn encode(&self) -> (r: Vec<u8>)
        requires
            self.wf(),
        ensures
            r@ == spec_encode_v1(self@),
            r@.len() == 1624,
    {
        let mut out: Vec<u8> = Vec::new();
        push_bytes(&mut out, self.magic.0.as_slice());
        let mut t = u32_to_le_bytes(self.kernel_size);
        out.append(&mut t);
        push_bytes(&mut out, self.kernel_addr.0.as_slice());
        let mut t = u32_to_le_bytes(self.ramdisk_size);
        out.append(&mut t);
        push_bytes(&mut out, self.ramdisk_addr.0.as_slice());
        let mut t = u32_to_le_bytes(self.second_size);
        out.append(&mut t);
        push_bytes(&mut out, self.second_addr.0.as_slice());
        push_bytes(&mut out, self.tags_addr.0.as_slice());
        let mut t = u32_to_le_bytes(self.page_size);
        out.append(&mut t);
        let mut t = u32_to_le_bytes(self.header_version);
        out.append(&mut t);
        let mut t = u32_to_le_bytes(self.os_version.0);
        out.append(&mut t);
        push_bytes(&mut out, self.name.0.as_slice());
        push_bytes(&mut out, self.cmdline.0.as_slice());
        push_bytes(&mut out, self.id.0.as_slice());
        push_bytes(&mut out, self.extra_cmdline.0.as_slice());
        let mut t = u32_to_le_bytes(self.recovery_dtbo_size);
        out.append(&mut t);
        push_bytes(&mut out, self.recovery_dtbo_offset.0.as_slice());
        let mut t = u32_to_le_bytes(self.header_size);
        out.append(&mut t);
        proof {
            assert(out@ =~= spec_encode_v1(self@));
        }
        out
    }

    /// Reads a header from the first 1624 bytes of `b`.
    pub fn decode(b: &[u8]) -> (r: Self)
        requires
            b@.len() >= 1624,
        ensures
            r@ == spec_parse_v1(b@),
            r.wf(),
    {
        let r = AndroidHeaderVersion1 {
            magic: AndroidBootMagic(copy_range(b, 0, 8)),
            kernel_size: u32_from_le_bytes(&b[8..12]),
            kernel_addr: AddressU32(copy_range(b, 12, 16)),
            ramdisk_size: u32_from_le_bytes(&b[16..20]),
            ramdisk_addr: AddressU32(copy_range(b, 20, 24)),
            second_size: u32_from_le_bytes(&b[24..28]),
            second_addr: AddressU32(copy_range(b, 28, 32)),
            tags_addr: AddressU32(copy_range(b, 32, 36)),
            page_size: u32_from_le_bytes(&b[36..40]),
            header_version: u32_from_le_bytes(&b[40..44]),
            os_version: OSVersion(u32_from_le_bytes(&b[44..48])),
            name: Name(copy_range(b, 48, 64)),
            cmdline: Cmdline(copy_range(b, 64, 576)),
            id: Id(copy_range(b, 576, 584)),
            extra_cmdline: ExtraCmdline(copy_range(b, 584, 1608)),
            recovery_dtbo_size: u32_from_le_bytes(&b[1608..1612]),
            recovery_dtbo_offset: AddressU64(copy_range(b, 1612, 1620)),
            header_size: u32_from_le_bytes(&b[1620..1624]),
        };
        proof {
            assert(r@ =~= spec_parse_v1(b@));
        }
        r
    }
}

impl Default for AndroidHeaderVersion1 {
    /// An all-zero header carrying only the magic.
    fn default() -> (r: Self)
        ensures
            r.wf(),
            r@.magic == crate::spec_boot_magic(),
            r@.kernel_size == 0,
            r@.ramdisk_size == 0,
            r@.second_size == 0,
            r@.recovery_dtbo_size == 0,
            r@.page_size == 0,
            r@.header_version == 0,
            r@.os_version == 0,
    {
        AndroidHeaderVersion1 {
            magic: AndroidBootMagic::default(),
            kernel_size: 0,
            kernel_addr: AddressU32::default(),
            ramdisk_size: 0,
            ramdisk_addr: AddressU32::default(),
            second_size: 0,
            second_addr: AddressU32::default(),
            tags_addr: AddressU32::default(),
            page_size: 0,
            header_version: 0,
            os_version: OSVersion::default(),
            name: Name::default(),
            cmdline: Cmdline::default(),
            id: Id::default(),
            extra_cmdline: ExtraCmdline::default(),
            recovery_dtbo_size: 0,
            recovery_dtbo_offset: AddressU64::default(),
            header_size: 0,
        }
    }
}

impl AndroidHeaderVersion2 {
    pub open spec fn wf(&self) -> bool {
        self@.wf()
    }

    /// Serializes the header into its exact 1636-byte layout.
    pub fn encode(&self) -> (r: Vec<u8>)
        requires
            self.wf(),
        ensures
            r@ == spec_encode_v2(self@),
            r@.len() == 1636,
    {
        let mut out: Vec<u8> = Vec::new();
        push_bytes(&mut out, self.magic.0.as_slice());
        let mut t = u32_to_le_bytes(self.kernel_size);
        out.append(&mut t);
        push_bytes(&mut out, self.kernel_addr.0.as_slice());
        let mut t = u32_to_le_bytes(self.ramdisk_size);
        out.append(&mut t);
        push_bytes(&mut out, self.ramdisk_addr.0.as_slice());
        let mut t = u32_to_le_bytes(self.second_size);
        out.append(&mut t);
        push_bytes(&mut out, self.second_addr.0.as_slice());
        push_bytes(&mut out, self.tags_addr.0.as_slice());
        let mut t = u32_to_le_bytes(self.page_size);
        out.append(&mut t);
        let mut t = u32_to_le_bytes(self.header_version);
        out.append(&mut t);
        let mut t = u32_to_le_bytes(self.os_version.0);
        out.append(&mut t);
        push_bytes(&mut out, self.name.0.as_slice());
        push_bytes(&mut out, self.cmdline.0.as_slice());
        push_bytes(&mut out, self.id.0.as_slice());
        push_bytes(&mut out, self.extra_cmdline.0.as_slice());
        let mut t = u32_to_le_bytes(self.recovery_dtbo_size);
        out.append(&mut t);
        push_bytes(&mut out, self.recovery_dtbo_offset.0.as_slice());
        let mut t = u32_to_le_bytes(self.header_size);
        out.append(&mut t);
        let mut t = u32_to_le_bytes(self.dtb_size);
        out.append(&mut t);
        push_bytes(&mut out, self.dtb_addr.0.as_slice());
        proof {
            assert(out@ =~= spec_encode_v2(self@));
        }
        out
    }

    /// Reads a header from the first 1636 bytes of `b`.
    pub fn decode(b: &[u8]) -> (r: Self)
        requires
            b@.len() >= 1636,
        ensures
            r@ == spec_parse_v2(b@),
            r.wf(),
    {
        let r = AndroidHeaderVersion2 {
            magic: AndroidBootMagic(copy_range(b, 0, 8)),
            kernel_size: u32_from_le_bytes(&b[8..12]),
            kernel_addr: AddressU32(copy_range(b, 12, 16)),
            ramdisk_size: u32_from_le_bytes(&b[16..20]),
            ramdisk_addr: AddressU32(copy_range(b, 20, 24)),
            second_size: u32_from_le_bytes(&b[24..28]),
            second_addr: AddressU32(copy_range(b, 28, 32)),
            tags_addr: AddressU32(copy_range(b, 32, 36)),
            page_size: u32_from_le_bytes(&b[36..40]),
            header_version: u32_from_le_bytes(&b[40..44]),
            os_version: OSVersion(u32_from_le_bytes(&b[44..48])),
            name: Name(copy_range(b, 48, 64)),
            cmdline: Cmdline(copy_range(b, 64, 576)),
            id: Id(copy_range(b, 576, 584)),
            extra_cmdline: ExtraCmdline(copy_range(b, 584, 1608)),
            recovery_dtbo_size: u32_from_le_bytes(&b[1608..1612]),
            recovery_dtbo_offset: AddressU64(copy_range(b, 1612, 1620)),
            header_size: u32_from_le_bytes(&b[1620..1624]),
            dtb_size: u32_from_le_bytes(&b[1624..1628]),
            dtb_addr: AddressU64(copy_range(b, 1628, 1636)),
        };
        proof {
            assert(r@ =~= spec_parse_v2(b@));
        }
        r
    }
}

impl Default for AndroidHeaderVersion2 {
    /// An all-zero header carrying only the magic.
    fn default() -> (r: Self)
        ensures
            r.wf(),
            r@.magic == crate::spec_boot_magic(),
            r@.kernel_size == 0,
            r@.ramdisk_size == 0,
            r@.second_size == 0,
            r@.recovery_dtbo_size == 0,
            r@.dtb_size == 0,
            r@.page_size == 0,
            r@.header_version == 0,
            r@.os_version == 0,
    {
        AndroidHeaderVersion2 {
            magic: AndroidBootMagic::default(),
            kernel_size: 0,
            kernel_addr: AddressU32::default(),
            ramdisk_size: 0,
            ramdisk_addr: AddressU32::default(),
            second_size: 0,
            second_addr: AddressU32::default(),
            tags_addr: AddressU32::default(),
            page_size: 0,
            header_version: 0,
            os_version: OSVersion::default(),
            name: Name::default(),
            cmdline: Cmdline::default(),
            id: Id::default(),
            extra_cmdline: ExtraCmdline::default(),
            recovery_dtbo_size: 0,
            recovery_dtbo_offset: AddressU64::default(),
            header_size: 0,
            dtb_size: 0,
            dtb_addr: AddressU64::default(),
        }
    }
}

impl AndroidHeaderVersion3 {
    pub open spec fn wf(&self) -> bool {
        self@.wf()
    }

    /// Serializes the header into its exact 1580-byte layout.
    pub fn encode(&self) -> (r: Vec<u8>)
        requires
            self.wf(),
        ensures
            r@ == spec_encode_v3(self@),
            r@.len() == 1580,
    {
        let mut out: Vec<u8> = Vec::new();
        push_bytes(&mut out, self.magic.0.as_slice());
        let mut t = u32_to_le_bytes(self.kernel_size);
        out.append(&mut t);
        let mut t = u32_to_le_bytes(self.ramdisk_size);
        out.append(&mut t);
        let mut t = u32_to_le_bytes(self.os_version.0);
        out.append(&mut t);
        let mut t = u32_to_le_bytes(self.header_size);
        out.append(&mut t);
        let mut t = u32_to_le_bytes(self.reserved[0]);
        out.append(&mut t);
        let mut t = u32_to_le_bytes(self.reserved[1]);
        out.append(&mut t);
        let mut t = u32_to_le_bytes(self.reserved[2]);
        out.append(&mut t);
        let mut t = u32_to_le_bytes(self.reserved[3]);
        out.append(&mut t);
        let mut t = u32_to_le_bytes(self.header_version);
        out.append(&mut t);
        push_bytes(&mut out, self.cmdline.0.as_slice());
        proof {
            assert(out@ =~= spec_encode_v3(self@));
        }
        out
    }

    /// Reads a header from the first 1580 bytes of `b`.
    pub fn decode(b: &[u8]) -> (r: Self)
        requires
            b@.len() >= 1580,
        ensures
            r@ == spec_parse_v3(b@),
            r.wf(),
    {
        let reserved = [
            u32_from_le_bytes(&b[24..28]),
            u32_from_le_bytes(&b[28..32]),
            u32_from_le_bytes(&b[32..36]),
            u32_from_le_bytes(&b[36..40]),
        ];
        let r = AndroidHeaderVersion3 {
            magic: AndroidBootMagic(copy_range(b, 0, 8)),
            kernel_size: u32_from_le_bytes(&b[8..12]),
            ramdisk_size: u32_from_le_bytes(&b[12..16]),
            os_version: OSVersion(u32_from_le_bytes(&b[16..20])),
            header_size: u32_from_le_bytes(&b[20..24]),
            reserved,
            header_version: u32_from_le_bytes(&b[40..44]),
            cmdline: CmdlineExtended(copy_range(b, 44, 1580)),
        };
        proof {
            assert(r@.reserved =~= spec_parse_v3(b@).reserved);
            assert(r@ =~= spec_parse_v3(b@));
        }
        r
    }
}

impl Default for AndroidHeaderVersion3 {
    /// An all-zero header carrying only the magic; its version tag must be
    /// set to 3 by the caller that means it.
    fn default() -> (r: Self)
        ensures
            r.wf(),
            r@.magic == crate::spec_boot_magic(),
            r@.kernel_size == 0,
            r@.ramdisk_size == 0,
            r@.header_version == 0,
            r@.os_version == 0,
    {
        let reserved = [0u32, 0u32, 0u32, 0u32];
        AndroidHeaderVersion3 {
            magic: AndroidBootMagic::default(),
            kernel_size: 0,
            ramdisk_size: 0,
            os_version: OSVersion::default(),
            header_size: 0,
            reserved,
            header_version: 0,
            cmdline: CmdlineExtended::default(),
        }
    }
}

impl AndroidHeaderVersion4 {
    pub open spec fn wf(&self) -> bool {
        self@.wf()
    }

    /// Serializes the header into its exact 1584-byte layout.
    pub fn encode(&self) -> (r: Vec<u8>)
        requires
            self.wf(),
        ensures
            r@ == spec_encode_v4(self@),
            r@.len() == 1584,
    {
        let mut out: Vec<u8> = Vec::new();
        push_bytes(&mut out, self.magic.0.as_slice());
        let mut t = u32_to_le_bytes(self.kernel_size);
        out.append(&mut t);
        let mut t = u32_to_le_bytes(self.ramdisk_size);
        out.append(&mut t);
        let mut t = u32_to_le_bytes(self.os_version.0);
        out.append(&mut t);
        let mut t = u32_to_le_bytes(self.header_size);
        out.append(&mut t);
        let mut t = u32_to_le_bytes(self.reserved[0]);
        out.append(&mut t);
        let mut t = u32_to_le_bytes(self.reserved[1]);
        out.append(&mut t);
        let mut t = u32_to_le_bytes(self.reserved[2]);
        out.append(&mut t);
        let mut t = u32_to_le_bytes(self.reserved[3]);
        out.append(&mut t);
        let mut t = u32_to_le_bytes(self.header_version);
        out.append(&mut t);
        push_bytes(&mut out, self.cmdline.0.as_slice());
        let mut t = u32_to_le_bytes(self.signature_size);
        out.append(&mut t);
        proof {
            assert(out@ =~= spec_encode_v4(self@));
        }
        out
    }

    /// Reads a header from the first 1584 bytes of `b`.
    pub fn decode(b: &[u8]) -> (r: Self)
        requires
            b@.len() >= 1584,
        ensures
            r@ == spec_parse_v4(b@),
            r.wf(),
    {
        let reserved = [
            u32_from_le_bytes(&b[24..28]),
            u32_from_le_bytes(&b[28..32]),
            u32_from_le_bytes(&b[32..36]),
            u32_from_le_bytes(&b[36..40]),
        ];
        let r = AndroidHeaderVersion4 {
            magic: AndroidBootMagic(copy_range(b, 0, 8)),
            kernel_size: u32_from_le_bytes(&b[8..12]),
            ramdisk_size: u32_from_le_bytes(&b[12..16]),
            os_version: OSVersion(u32_from_le_bytes(&b[16..20])),
            header_size: u32_from_le_bytes(&b[20..24]),
            reserved,
            header_version: u32_from_le_bytes(&b[40..44]),
            cmdline: CmdlineExtended(copy_range(b, 44, 1580)),
            signature_size: u32_from_le_bytes(&b[1580..1584]),
        };
        proof {
            assert(r@.reserved =~= spec_parse_v4(b@).reserved);
            assert(r@ =~= spec_parse_v4(b@));
        }
        r
    }
}

// ---------------------------------------------------------------------------
// The version-tagged header
// ---------------------------------------------------------------------------

/// One loaded header, tagged with the layout it was read in.
#[derive(Debug)]
pub enum AndroidHeader {
    V0(AndroidHeaderVersion0),
    V1(AndroidHeaderVersion1),
    V2(AndroidHeaderVersion2),
    V3(AndroidHeaderVersion3),
    V4(AndroidHeaderVersion4),
}

/// The abstract value of a version-tagged header.
#[verifier::ext_equal]
pub enum HeaderView {
    V0(HeaderV0View),
    V1(HeaderV1View),
    V2(HeaderV2View),
    V3(HeaderV3View),
    V4(HeaderV4View),
}

impl View for AndroidHeader {
    type V = HeaderView;

    open spec fn view(&self) -> HeaderView {
        match self {
            AndroidHeader::V0(h) => HeaderView::V0(h@),
            AndroidHeader::V1(h) => HeaderView::V1(h@),
            AndroidHeader::V2(h) => HeaderView::V2(h@),
            AndroidHeader::V3(h) => HeaderView::V3(h@),
            AndroidHeader::V4(h) => HeaderView::V4(h@),
        }
    }
}

impl HeaderView {
    pub open spec fn wf(&self) -> bool {
        match self {
            HeaderView::V0(h) => h.wf(),
            HeaderView::V1(h) => h.wf(),
            HeaderView::V2(h) => h.wf(),
            HeaderView::V3(h) => h.wf(),
            HeaderView::V4(h) => h.wf(),
        }
    }

    /// The version a layout stands for.
    pub open spec fn tag(&self) -> u32 {
        match self {
            HeaderView::V0(_) => 0,
            HeaderView::V1(_) => 1,
            HeaderView::V2(_) => 2,
            HeaderView::V3(_) => 3,
            HeaderView::V4(_) => 4,
        }
    }

    /// The version number the header's own field declares.
    pub open spec fn version_field(&self) -> u32 {
        match self {
            HeaderView::V0(h) => h.header_version,
            HeaderView::V1(h) => h.header_version,
            HeaderView::V2(h) => h.header_version,
            HeaderView::V3(h) => h.header_version,
            HeaderView::V4(h) => h.header_version,
        }
    }

    /// A fully consistent header: well-formed, and its stored version
    /// number names its own layout.
    pub open spec fn consistent(&self) -> bool {
        self.wf() && self.version_field() == self.tag()
    }

    /// The encoded size of the layout.
    pub open spec fn spec_len(&self) -> int {
        match self {
            HeaderView::V0(_) => 1608,
            HeaderView::V1(_) => 1624,
            HeaderView::V2(_) => 1636,
            HeaderView::V3(_) => 1580,
            HeaderView::V4(_) => 1584,
        }
    }

    /// The stored magic bytes.
    pub open spec fn magic(&self) -> Seq<u8> {
        match self {
            HeaderView::V0(h) => h.magic,
            HeaderView::V1(h) => h.magic,
            HeaderView::V2(h) => h.magic,
            HeaderView::V3(h) => h.magic,
            HeaderView::V4(h) => h.magic,
        }
    }

    /// The page size the header implies: its own field through version 2,
    /// the fixed constant from version 3 on.
    pub open spec fn page_size(&self) -> u32 {
        match self {
            HeaderView::V0(h) => h.page_size,
            HeaderView::V1(h) => h.page_size,
            HeaderView::V2(h) => h.page_size,
            HeaderView::V3(_) => 4096,
            HeaderView::V4(_) => 4096,
        }
    }

    pub open spec fn kernel_size(&self) -> u32 {
        match self {
            HeaderView::V0(h) => h.kernel_size,
            HeaderView::V1(h) => h.kernel_size,
            HeaderView::V2(h) => h.kernel_size,
            HeaderView::V3(h) => h.kernel_size,
            HeaderView::V4(h) => h.kernel_size,
        }
    }

    pub open spec fn ramdisk_size(&self) -> u32 {
        match self {
            HeaderView::V0(h) => h.ramdisk_size,
            HeaderView::V1(h) => h.ramdisk_size,
            HeaderView::V2(h) => h.ramdisk_size,
            HeaderView::V3(h) => h.ramdisk_size,
            HeaderView::V4(h) => h.ramdisk_size,
        }
    }

    /// The second-stage size; absent from version 3 on.
    pub open spec fn second_size(&self) -> u32 {
        match self {
            HeaderView::V0(h) => h.second_size,
            HeaderView::V1(h) => h.second_size,
            HeaderView::V2(h) => h.second_size,
            HeaderView::V3(_) => 0,
            HeaderView::V4(_) => 0,
        }
    }

    /// The recovery-DTBO size; present in versions 1 and 2 only.
    pub open spec fn recovery_dtbo_size(&self) -> u32 {
        match self {
            HeaderView::V0(_) => 0,
            HeaderView::V1(h) => h.recovery_dtbo_size,
            HeaderView::V2(h) => h.recovery_dtbo_size,
            HeaderView::V3(_) => 0,
            HeaderView::V4(_) => 0,
        }
    }

    /// The device-tree size; present in version 2 only.
    pub open spec fn dtb_size(&self) -> u32 {
        match self {
            HeaderView::V0(_) => 0,
            HeaderView::V1(_) => 0,
            HeaderView::V2(h) => h.dtb_size,
            HeaderView::V3(_) => 0,
            HeaderView::V4(_) => 0,
        }
    }
}

/// The encoding of a version-tagged header.
pub open spec fn spec_encode_header(h: HeaderView) -> Seq<u8> {
    match h {
        HeaderView::V0(v) => spec_encode_v0(v),
        HeaderView::V1(v) => spec_encode_v1(v),
        HeaderView::V2(v) => spec_encode_v2(v),
        HeaderView::V3(v) => spec_encode_v3(v),
        HeaderView::V4(v) => spec_encode_v4(v),
    }
}

/// Whether `b` opens with the boot-image magic.
pub open spec fn spec_magic_ok(b: Seq<u8>) -> bool {
    b.len() >= 8 && b.subrange(0, 8) == crate::spec_boot_magic()
}

/// The version number stored at its fixed offset, read as the version-0
/// layout stores it; zero when the bytes do not reach it.
pub open spec fn spec_raw_version(b: Seq<u8>) -> u32 {
    if b.len() < 44 {
        0
    } else {
        spec_u32_from_le_bytes(b.subrange(40, 44))
    }
}

/// The layout the decoder selects: the stored version, with anything
/// outside 0..=4 falling back to version 0 for compatibility.
pub open spec fn spec_detected_version(b: Seq<u8>) -> u32 {
    if spec_raw_version(b) <= 4 {
        spec_raw_version(b)
    } else {
        0
    }
}

/// The encoded size of the layout a version number selects.
pub open spec fn spec_header_len(ver: u32) -> int {
    if ver == 1 {
        1624
    } else if ver == 2 {
        1636
    } else if ver == 3 {
        1580
    } else if ver == 4 {
        1584
    } else {
        1608
    }
}

/// The header read from `b` in the layout the detected version selects.
pub open spec fn spec_parse_header(b: Seq<u8>) -> HeaderView {
    let v = spec_detected_version(b);
    if v == 1 {
        HeaderView::V1(spec_parse_v1(b))
    } else if v == 2 {
        HeaderView::V2(spec_parse_v2(b))
    } else if v == 3 {
        HeaderView::V3(spec_parse_v3(b))
    } else if v == 4 {
        HeaderView::V4(spec_parse_v4(b))
    } else {
        HeaderView::V0(spec_parse_v0(b))
    }
}

/// Whether `b` opens with the boot-image magic.
pub fn check_magic(b: &[u8]) -> (r: bool)
    ensures
        r == spec_magic_ok(b@),
{
    if b.len() < crate::BOOT_MAGIC_SIZE {
        return false;
    }
    let ok = b[0] == 0x41 && b[1] == 0x4E && b[2] == 0x44 && b[3] == 0x52 && b[4] == 0x4F && b[5]
        == 0x49 && b[6] == 0x44 && b[7] == 0x21;
    proof {
        if ok {
            assert(b@.subrange(0, 8) =~= crate::spec_boot_magic());
        } else {
            if b@.subrange(0, 8) == crate::spec_boot_magic() {
                assert(b@[0] == b@.subrange(0, 8)[0]);
                assert(b@[1] == b@.subrange(0, 8)[1]);
                assert(b@[2] == b@.subrange(0, 8)[2]);
                assert(b@[3] == b@.subrange(0, 8)[3]);
                assert(b@[4] == b@.subrange(0, 8)[4]);
                assert(b@[5] == b@.subrange(0, 8)[5]);
                assert(b@[6] == b@.subrange(0, 8)[6]);
                assert(b@[7] == b@.subrange(0, 8)[7]);
            }
        }
    }
    ok
}

impl AndroidHeader {
    pub open spec fn wf(&self) -> bool {
        self@.wf()
    }

    /// The version tag of the active layout.
    pub fn version_tag(&self) -> (r: u32)
        ensures
            r == self@.tag(),
    {
        match self {
            AndroidHeader::V0(_) => 0,
            AndroidHeader::V1(_) => 1,
            AndroidHeader::V2(_) => 2,
            AndroidHeader::V3(_) => 3,
            AndroidHeader::V4(_) => 4,
        }
    }

    /// The encoded size of the active layout.
    pub fn byte_len(&self) -> (r: usize)
        ensures
            r == self@.spec_len(),
    {
        match self {
            AndroidHeader::V0(_) => HEADER_SIZE_V0,
            AndroidHeader::V1(_) => HEADER_SIZE_V1,
            AndroidHeader::V2(_) => HEADER_SIZE_V2,
            AndroidHeader::V3(_) => HEADER_SIZE_V3,
            AndroidHeader::V4(_) => HEADER_SIZE_V4,
        }
    }

    /// Serializes the active layout; the output holds exactly the
    /// layout's fixed header size, with no page padding.
    pub fn encode(&self) -> (r: Vec<u8>)
        requires
            self.wf(),
        ensures
            r@ == spec_encode_header(self@),
            r@.len() == self@.spec_len(),
    {
        match self {
            AndroidHeader::V0(h) => h.encode(),
            AndroidHeader::V1(h) => h.encode(),
            AndroidHeader::V2(h) => h.encode(),
            AndroidHeader::V3(h) => h.encode(),
            AndroidHeader::V4(h) => h.encode(),
        }
    }

    /// Decodes a header from the opening bytes of a container file.
    ///
    /// The magic is checked first; then the version number stored at its
    /// common offset selects the layout, any unrecognized value falling
    /// back to version 0.
    pub fn decode(b: &[u8]) -> (r: Result<AndroidHeader, AbootCrafterError>)
        ensures
            !spec_magic_ok(b@) ==> (r matches Err(e) && e is InvalidMagic),
            spec_magic_ok(b@) && b@.len() < spec_header_len(spec_detected_version(b@)) ==> (
            r matches Err(e) && e is TruncatedHeader),
            spec_magic_ok(b@) && b@.len() >= spec_header_len(spec_detected_version(b@)) ==> (
            r matches Ok(h) && h@ == spec_parse_header(b@) && h@.wf() && h@.tag()
                == spec_detected_version(b@)),
    {
        if !check_magic(b) {
            return Err(AbootCrafterError::InvalidMagic);
        }
        let raw: u32 = if b.len() >= 44 {
            u32_from_le_bytes(&b[40..44])
        } else {
            0
        };
        let version: u32 = if raw <= 4 {
            raw
        } else {
            0
        };
        assert(version == spec_detected_version(b@));
        if version == 1 {
            if b.len() < HEADER_SIZE_V1 {
                return Err(AbootCrafterError::TruncatedHeader);
            }
            Ok(AndroidHeader::V1(AndroidHeaderVersion1::decode(b)))
        } else if version == 2 {
            if b.len() < HEADER_SIZE_V2 {
                return Err(AbootCrafterError::TruncatedHeader);
            }
            Ok(AndroidHeader::V2(AndroidHeaderVersion2::decode(b)))
        } else if version == 3 {
            if b.len() < HEADER_SIZE_V3 {
                return Err(AbootCrafterError::TruncatedHeader);
            }
            Ok(AndroidHeader::V3(AndroidHeaderVersion3::decode(b)))
        } else if version == 4 {
            if b.len() < HEADER_SIZE_V4 {
                return Err(AbootCrafterError::TruncatedHeader);
            }
            Ok(AndroidHeader::V4(AndroidHeaderVersion4::decode(b)))
        } else {
            if b.len() < HEADER_SIZE_V0 {
                return Err(AbootCrafterError::TruncatedHeader);
            }
            Ok(AndroidHeader::V0(AndroidHeaderVersion0::decode(b)))
        }
    }
}

impl Default for AndroidHeader {
    /// An empty image starts from an all-zero version-0 header.
    fn default() -> (r: Self)
        ensures
            r.wf(),
            r@.tag() == 0,
            r@.kernel_size() == 0,
            r@.ramdisk_size() == 0,
            r@.second_size() == 0,
    {
        AndroidHeader::V0(AndroidHeaderVersion0::default())
    }
}

// ---------------------------------------------------------------------------
// The in-memory image
// ---------------------------------------------------------------------------

/// One boot image held in memory: the active header and its version tag.
/// The backing file itself stays with the caller, which owns all I/O.
#[derive(Debug)]
pub struct AndroidBootFile {
    pub header: AndroidHeader,
    pub version: u32,
}

impl AndroidBootFile {
    /// The version tag recorded beside the header names its layout.
    pub open spec fn wf(&self) -> bool {
        self.header@.wf() && self.version == self.header@.tag()
    }

    /// Adopts the header decoded from the opening bytes of a container
    /// file; on failure the image is left as it was.
    pub fn load(&mut self, bytes: &[u8]) -> (r: Result<(), AbootCrafterError>)
        ensures
            !spec_magic_ok(bytes@) ==> (r matches Err(e) && e is InvalidMagic && *final(self)
                == *old(self)),
            spec_magic_ok(bytes@) && bytes@.len() < spec_header_len(spec_detected_version(bytes@))
                ==> (r matches Err(e) && e is TruncatedHeader && *final(self) == *old(self)),
            spec_magic_ok(bytes@) && bytes@.len() >= spec_header_len(spec_detected_version(bytes@))
                ==> (r is Ok && final(self).header@ == spec_parse_header(bytes@)
                    && final(self).version == spec_detected_version(bytes@)
                    && final(self).wf()),
    {
        match AndroidHeader::decode(bytes) {
            Ok(h) => {
                let v = h.version_tag();
                self.header = h;
                self.version = v;
                Ok(())
            },
            Err(e) => Err(e),
        }
    }

    /// The first page of a container file: the encoded header, zero-padded
    /// to one full page.
    pub fn save(&self, page_size: u32) -> (r: Vec<u8>)
        requires
            self.wf(),
            self.header@.spec_len() <= page_size,
        ensures
            r@ == spec_encode_header(self.header@) + spec_zeros(
                page_size - spec_encode_header(self.header@).len(),
            ),
            r@.len() == page_size,
            r@.subrange(0, self.header@.spec_len()) == spec_encode_header(self.header@),
    {
        let mut out = self.header.encode();
        let pad = zero_vec((page_size as usize) - out.len());
        let mut pad = pad;
        out.append(&mut pad);
        proof {
            assert(out@.subrange(0, self.header@.spec_len()) =~= spec_encode_header(
                self.header@,
            ));
        }
        out
    }

    /// The page size the loaded header implies.
    pub fn get_page_size(&self) -> (r: u32)
        ensures
            r == self.header@.page_size(),
    {
        match &self.header {
            AndroidHeader::V0(h) => h.page_size,
            AndroidHeader::V1(h) => h.page_size,
            AndroidHeader::V2(h) => h.page_size,
            AndroidHeader::V3(_) => crate::PAGE_SIZE_V3,
            AndroidHeader::V4(_) => crate::PAGE_SIZE_V3,
        }
    }

    pub fn get_kernel_size(&self) -> (r: u32)
        ensures
            r == self.header@.kernel_size(),
    {
        match &self.header {
            AndroidHeader::V0(h) => h.kernel_size,
            AndroidHeader::V1(h) => h.kernel_size,
            AndroidHeader::V2(h) => h.kernel_size,
            AndroidHeader::V3(h) => h.kernel_size,
            AndroidHeader::V4(h) => h.kernel_size,
        }
    }

    pub fn get_ramdisk_size(&self) -> (r: u32)
        ensures
            r == self.header@.ramdisk_size(),
    {
        match &self.header {
            AndroidHeader::V0(h) => h.ramdisk_size,
            AndroidHeader::V1(h) => h.ramdisk_size,
            AndroidHeader::V2(h) => h.ramdisk_size,
            AndroidHeader::V3(h) => h.ramdisk_size,
            AndroidHeader::V4(h) => h.ramdisk_size,
        }
    }

    /// The second-stage size, absent from version 3 on.
    pub fn get_second_size(&self) -> (r: Option<u32>)
        ensures
            self.header@.tag() <= 2 ==> r == Some(self.header@.second_size()),
            self.header@.tag() > 2 ==> r is None,
    {
        match &self.header {
            AndroidHeader::V0(h) => Some(h.second_size),
            AndroidHeader::V1(h) => Some(h.second_size),
            AndroidHeader::V2(h) => Some(h.second_size),
            AndroidHeader::V3(_) => None,
            AndroidHeader::V4(_) => None,
        }
    }
}

impl Default for AndroidBootFile {
    /// An empty image: default version-0 header, version tag zero.
    fn default() -> (r: Self)
        ensures
            r.wf(),
            r.version == 0,
            r.header@.kernel_size() == 0,
            r.header@.ramdisk_size() == 0,
            r.header@.second_size() == 0,
    {
        AndroidBootFile { header: AndroidHeader::default(), version: 0 }
    }
}

impl Default for AndroidHeaderVersion4 {
    /// An all-zero header carrying only the magic; its version tag must be
    /// set to 4 by the caller that means it.
    fn default() -> (r: Self)
        ensures
            r.wf(),
            r@.magic == crate::spec_boot_magic(),
            r@.kernel_size == 0,
            r@.ramdisk_size == 0,
            r@.header_version == 0,
            r@.os_version == 0,
            r@.signature_size == 0,
    {
        let reserved = [0u32, 0u32, 0u32, 0u32];
        AndroidHeaderVersion4 {
            magic: AndroidBootMagic::default(),
            kernel_size: 0,
            ramdisk_size: 0,
            os_version: OSVersion::default(),
            header_size: 0,
            reserved,
            header_version: 0,
            cmdline: CmdlineExtended::default(),
            signature_size: 0,
        }
    }
}

} // verus!

use vstd::bytes::lemma_auto_spec_u32_to_from_le_bytes;

verus! {

// ---------------------------------------------------------------------------
// Round-trip laws
// ---------------------------------------------------------------------------

/// Decoding an encoded version-0 header gives back every field.
#[verifier::rlimit(60)]
pub proof fn lemma_v0_round_trip(h: HeaderV0View)
    requires
        h.wf(),
    ensures
        spec_encode_v0(h).len() == 1608,
        spec_parse_v0(spec_encode_v0(h)) == h,
{
    lemma_auto_spec_u32_to_from_le_bytes();
    let b = spec_encode_v0(h);
    assert(b.subrange(0, 8) =~= h.magic);
    assert(b.subrange(8, 12) =~= spec_u32_to_le_bytes(h.kernel_size));
    assert(b.subrange(12, 16) =~= h.kernel_addr);
    assert(b.subrange(16, 20) =~= spec_u32_to_le_bytes(h.ramdisk_size));
    assert(b.subrange(20, 24) =~= h.ramdisk_addr);
    assert(b.subrange(24, 28) =~= spec_u32_to_le_bytes(h.second_size));
    assert(b.subrange(28, 32) =~= h.second_addr);
    assert(b.subrange(32, 36) =~= h.tags_addr);
    assert(b.subrange(36, 40) =~= spec_u32_to_le_bytes(h.page_size));
    assert(b.subrange(40, 44) =~= spec_u32_to_le_bytes(h.header_version));
    assert(b.subrange(44, 48) =~= spec_u32_to_le_bytes(h.os_version));
    assert(b.subrange(48, 64) =~= h.name);
    assert(b.subrange(64, 576) =~= h.cmdline);
    assert(b.subrange(576, 584) =~= h.id);
    assert(b.subrange(584, 1608) =~= h.extra_cmdline);
    assert(spec_parse_v0(b) =~= h);
}

/// Decoding an encoded version-1 header gives back every field.
#[verifier::rlimit(60)]
pub proof fn lemma_v1_round_trip(h: HeaderV1View)
    requires
        h.wf(),
    ensures
        spec_encode_v1(h).len() == 1624,
        spec_parse_v1(spec_encode_v1(h)) == h,
{
    lemma_auto_spec_u32_to_from_le_bytes();
    let b = spec_encode_v1(h);
    assert(b.subrange(0, 8) =~= h.magic);
    assert(b.subrange(8, 12) =~= spec_u32_to_le_bytes(h.kernel_size));
    assert(b.subrange(12, 16) =~= h.kernel_addr);
    assert(b.subrange(16, 20) =~= spec_u32_to_le_bytes(h.ramdisk_size));
    assert(b.subrange(20, 24) =~= h.ramdisk_addr);
    assert(b.subrange(24, 28) =~= spec_u32_to_le_bytes(h.second_size));
    assert(b.subrange(28, 32) =~= h.second_addr);
    assert(b.subrange(32, 36) =~= h.tags_addr);
    assert(b.subrange(36, 40) =~= spec_u32_to_le_bytes(h.page_size));
    assert(b.subrange(40, 44) =~= spec_u32_to_le_bytes(h.header_version));
    assert(b.subrange(44, 48) =~= spec_u32_to_le_bytes(h.os_version));
    assert(b.subrange(48, 64) =~= h.name);
    assert(b.subrange(64, 576) =~= h.cmdline);
    assert(b.subrange(576, 584) =~= h.id);
    assert(b.subrange(584, 1608) =~= h.extra_cmdline);
    assert(b.subrange(1608, 1612) =~= spec_u32_to_le_bytes(h.recovery_dtbo_size));
    assert(b.subrange(1612, 1620) =~= h.recovery_dtbo_offset);
    assert(b.subrange(1620, 1624) =~= spec_u32_to_le_bytes(h.header_size));
    assert(spec_parse_v1(b) =~= h);
}

/// Decoding an encoded version-2 header gives back every field.
#[verifier::rlimit(60)]
pub proof fn lemma_v2_round_trip(h: HeaderV2View)
    requires
        h.wf(),
    ensures
        spec_encode_v2(h).len() == 1636,
        spec_parse_v2(spec_encode_v2(h)) == h,
{
    lemma_auto_spec_u32_to_from_le_bytes();
    let b = spec_encode_v2(h);
    assert(b.subrange(0, 8) =~= h.magic);
    assert(b.subrange(8, 12) =~= spec_u32_to_le_bytes(h.kernel_size));
    assert(b.subrange(12, 16) =~= h.kernel_addr);
    assert(b.subrange(16, 20) =~= spec_u32_to_le_bytes(h.ramdisk_size));
    assert(b.subrange(20, 24) =~= h.ramdisk_addr);
    assert(b.subrange(24, 28) =~= spec_u32_to_le_bytes(h.second_size));
    assert(b.subrange(28, 32) =~= h.second_addr);
    assert(b.subrange(32, 36) =~= h.tags_addr);
    assert(b.subrange(36, 40) =~= spec_u32_to_le_bytes(h.page_size));
    assert(b.subrange(40, 44) =~= spec_u32_to_le_bytes(h.header_version));
    assert(b.subrange(44, 48) =~= spec_u32_to_le_bytes(h.os_version));
    assert(b.subrange(48, 64) =~= h.name);
    assert(b.subrange(64, 576) =~= h.cmdline);
    assert(b.subrange(576, 584) =~= h.id);
    assert(b.subrange(584, 1608) =~= h.extra_cmdline);
    assert(b.subrange(1608, 1612) =~= spec_u32_to_le_bytes(h.recovery_dtbo_size));
    assert(b.subrange(1612, 1620) =~= h.recovery_dtbo_offset);
    assert(b.subrange(1620, 1624) =~= spec_u32_to_le_bytes(h.header_size));
    assert(b.subrange(1624, 1628) =~= spec_u32_to_le_bytes(h.dtb_size));
    assert(b.subrange(1628, 1636) =~= h.dtb_addr);
    assert(spec_parse_v2(b) =~= h);
}

/// Decoding an encoded version-3 header gives back every field.
#[verifier::rlimit(60)]
pub proof fn lemma_v3_round_trip(h: HeaderV3View)
    requires
        h.wf(),
    ensures
        spec_encode_v3(h).len() == 1580,
        spec_parse_v3(spec_encode_v3(h)) == h,
{
    lemma_auto_spec_u32_to_from_le_bytes();
    let b = spec_encode_v3(h);
    assert(b.subrange(0, 8) =~= h.magic);
    assert(b.subrange(8, 12) =~= spec_u32_to_le_bytes(h.kernel_size));
    assert(b.subrange(12, 16) =~= spec_u32_to_le_bytes(h.ramdisk_size));
    assert(b.subrange(16, 20) =~= spec_u32_to_le_bytes(h.os_version));
    assert(b.subrange(20, 24) =~= spec_u32_to_le_bytes(h.header_size));
    assert(b.subrange(24, 28) =~= spec_u32_to_le_bytes(h.reserved[0]));
    assert(b.subrange(28, 32) =~= spec_u32_to_le_bytes(h.reserved[1]));
    assert(b.subrange(32, 36) =~= spec_u32_to_le_bytes(h.reserved[2]));
    assert(b.subrange(36, 40) =~= spec_u32_to_le_bytes(h.reserved[3]));
    assert(b.subrange(40, 44) =~= spec_u32_to_le_bytes(h.header_version));
    assert(b.subrange(44, 1580) =~= h.cmdline);
    assert(spec_parse_v3(b).reserved =~= h.reserved);
    assert(spec_parse_v3(b) =~= h);
}

/// Decoding an encoded version-4 header gives back every field.
#[verifier::rlimit(60)]
pub proof fn lemma_v4_round_trip(h: HeaderV4View)
    requires
        h.wf(),
    ensures
        spec_encode_v4(h).len() == 1584,
        spec_parse_v4(spec_encode_v4(h)) == h,
{
    lemma_auto_spec_u32_to_from_le_bytes();
    let b = spec_encode_v4(h);
    assert(b.subrange(0, 8) =~= h.magic);
    assert(b.subrange(8, 12) =~= spec_u32_to_le_bytes(h.kernel_size));
    assert(b.subrange(12, 16) =~= spec_u32_to_le_bytes(h.ramdisk_size));
    assert(b.subrange(16, 20) =~= spec_u32_to_le_bytes(h.os_version));
    assert(b.subrange(20, 24) =~= spec_u32_to_le_bytes(h.header_size));
    assert(b.subrange(24, 28) =~= spec_u32_to_le_bytes(h.reserved[0]));
    assert(b.subrange(28, 32) =~= spec_u32_to_le_bytes(h.reserved[1]));
    assert(b.subrange(32, 36) =~= spec_u32_to_le_bytes(h.reserved[2]));
    assert(b.subrange(36, 40) =~= spec_u32_to_le_bytes(h.reserved[3]));
    assert(b.subrange(40, 44) =~= spec_u32_to_le_bytes(h.header_version));
    assert(b.subrange(44, 1580) =~= h.cmdline);
    assert(b.subrange(1580, 1584) =~= spec_u32_to_le_bytes(h.signature_size));
    assert(spec_parse_v4(b).reserved =~= h.reserved);
    assert(spec_parse_v4(b) =~= h);
}

/// Round-trip fidelity of the whole codec: any well-formed header whose
/// stored version number names its own layout decodes, after encoding,
/// to exactly itself — the version is re-detected from the bytes, and
/// every field survives. With the boot magic in place, the encoded bytes
/// also pass the magic check.
pub proof fn lemma_header_round_trip(h: HeaderView)
    requires
        h.wf(),
        h.version_field() == h.tag(),
    ensures
        spec_encode_header(h).len() == h.spec_len(),
        spec_detected_version(spec_encode_header(h)) == h.tag(),
        spec_parse_header(spec_encode_header(h)) == h,
        h.magic() == crate::spec_boot_magic() ==> spec_magic_ok(spec_encode_header(h)),
{
    let b = spec_encode_header(h);
    match h {
        HeaderView::V0(v) => {
            lemma_v0_round_trip(v);
            assert(spec_raw_version(b) == v.header_version);
            assert(b.subrange(0, 8) == v.magic);
        },
        HeaderView::V1(v) => {
            lemma_v1_round_trip(v);
            assert(spec_raw_version(b) == v.header_version);
            assert(b.subrange(0, 8) == v.magic);
        },
        HeaderView::V2(v) => {
            lemma_v2_round_trip(v);
            assert(spec_raw_version(b) == v.header_version);
            assert(b.subrange(0, 8) == v.magic);
        },
        HeaderView::V3(v) => {
            lemma_v3_round_trip(v);
            assert(spec_raw_version(b) == v.header_version);
            assert(b.subrange(0, 8) == v.magic);
        },
        HeaderView::V4(v) => {
            lemma_v4_round_trip(v);
            assert(spec_raw_version(b) == v.header_version);
            assert(b.subrange(0, 8) == v.magic);
        },
    }
}

} // verus!
