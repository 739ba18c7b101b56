use vstd::prelude::*;

use crate::android::{
    AndroidHeader, AndroidHeaderVersion0, AndroidHeaderVersion1, AndroidHeaderVersion2,
    AndroidHeaderVersion3, AndroidHeaderVersion4, HeaderV0View, HeaderV1View, HeaderV2View,
    HeaderV3View, HeaderV4View, spec_detected_version, spec_encode_header, spec_encode_v0,
    spec_encode_v1, spec_encode_v2, spec_encode_v3, spec_encode_v4, spec_header_len, spec_magic_ok,
    spec_parse_header,
};
use crate::bytesutil::{copy_range, spec_fit, spec_zeros, zero_vec};
use crate::errors::AbootCrafterError;
use crate::fields::{
    AddressU32, AddressU64, AndroidBootMagic, Cmdline, CmdlineExtended, ExtraCmdline, Id, Name,
    OSVersion, spec_addr32_of_text, spec_addr64_of_text, spec_os_parse,
};
use crate::android::AndroidBootFile;
use crate::layout::{
    component_offsets, lemma_pages_cover, pages, spec_component_sizes, spec_offset_at, spec_pages,
    spec_sizes_only, ComponentKind,
};
use crate::android::HeaderView;
use vstd::string::StringExecFns;
use vstd::bytes::{spec_u32_to_le_bytes, spec_u64_to_le_bytes};
use vstd::string::StringSliceAdditionalSpecFns;

verus! {

/// The bytes an optional segment contributes: its own, or none.
pub open spec fn spec_opt_bytes(o: Option<&[u8]>) -> Seq<u8> {
    match o {
        Some(s) => s@,
        None => Seq::empty(),
    }
}

/// A segment's stored length: its bytes rounded up to whole pages.
pub open spec fn spec_padded_len(n: int, p: int) -> int
    recommends
        p > 0,
{
    p * spec_pages(n, p)
}

/// A segment as stored: its bytes, zero-padded to the next page boundary.
pub open spec fn spec_pad_block(data: Seq<u8>, p: int) -> Seq<u8>
    recommends
        p > 0,
{
    data + spec_zeros(spec_padded_len(data.len() as int, p) - data.len())
}

/// The payload area of an image: each segment's padded block, in order.
pub open spec fn spec_blocks(comps: Seq<Seq<u8>>, p: int) -> Seq<u8>
    decreases comps.len(),
{
    if comps.len() == 0 {
        Seq::empty()
    } else {
        spec_pad_block(comps.first(), p) + spec_blocks(comps.drop_first(), p)
    }
}

/// A whole container file: the header zero-padded to one page, then the
/// padded segments.
pub open spec fn spec_image(hbytes: Seq<u8>, p: int, comps: Seq<Seq<u8>>) -> Seq<u8>
    recommends
        p > 0,
        hbytes.len() <= p,
{
    hbytes + spec_zeros(p - hbytes.len()) + spec_blocks(comps, p)
}

/// The pages of all segments together.
pub open spec fn spec_total_pages(comps: Seq<Seq<u8>>, p: int) -> int
    decreases comps.len(),
{
    if comps.len() == 0 {
        0
    } else {
        spec_pages(comps.first().len() as int, p) + spec_total_pages(comps.drop_first(), p)
    }
}

/// Appending one more segment extends the payload area by its block.
pub proof fn lemma_blocks_snoc(s: Seq<Seq<u8>>, p: int, i: int)
    requires
        0 <= i < s.len(),
    ensures
        spec_blocks(s.take(i + 1), p) == spec_blocks(s.take(i), p) + spec_pad_block(s[i], p),
    decreases i,
{
    if i == 0 {
        assert(s.take(1).first() == s[0]);
        assert(s.take(1).drop_first() =~= Seq::<Seq<u8>>::empty());
        assert(s.take(0) =~= Seq::<Seq<u8>>::empty());
        assert(spec_blocks(s.take(1), p) =~= spec_blocks(s.take(0), p) + spec_pad_block(s[0], p));
    } else {
        lemma_blocks_snoc(s.drop_first(), p, i - 1);
        assert(s.take(i + 1).first() == s[0]);
        assert(s.take(i + 1).drop_first() =~= s.drop_first().take(i));
        assert(s.take(i).first() == s[0]);
        assert(s.take(i).drop_first() =~= s.drop_first().take(i - 1));
        assert(s.drop_first()[i - 1] == s[i]);
        assert(spec_blocks(s.take(i + 1), p) =~= spec_blocks(s.take(i), p) + spec_pad_block(
            s[i],
            p,
        ));
    }
}

/// A container file's length: the header page plus every segment's pages.
pub proof fn lemma_image_len(hbytes: Seq<u8>, p: int, comps: Seq<Seq<u8>>)
    requires
        p > 0,
        hbytes.len() <= p,
    ensures
        spec_image(hbytes, p, comps).len() == p * (1 + spec_total_pages(comps, p)),
        spec_total_pages(comps, p) >= 0,
{
    lemma_blocks_len(comps, p);
    assert(p * (1 + spec_total_pages(comps, p)) == p + p * spec_total_pages(comps, p))
        by (nonlinear_arith);
}

proof fn lemma_blocks_len(comps: Seq<Seq<u8>>, p: int)
    requires
        p > 0,
    ensures
        spec_blocks(comps, p).len() == p * spec_total_pages(comps, p),
        spec_total_pages(comps, p) >= 0,
    decreases comps.len(),
{
    if comps.len() == 0 {
        assert(p * 0 == 0) by (nonlinear_arith);
    } else {
        lemma_blocks_len(comps.drop_first(), p);
        lemma_pages_cover(comps.first().len() as int, p);
        let a = spec_pages(comps.first().len() as int, p);
        let b = spec_total_pages(comps.drop_first(), p);
        assert(p * (a + b) == p * a + p * b) by (nonlinear_arith);
    }
}

/// Rounds a byte buffer up to whole pages, filling with zeros, exactly as
/// a segment is stored inside the container.
pub fn pad_data_to_page_size(data: &[u8], page_size: u32) -> (r: Vec<u8>)
    requires
        page_size > 0,
        data@.len() + page_size <= 0x1_0000_0000,
    ensures
        r@ == spec_pad_block(data@, page_size as int),
        r@.len() == spec_padded_len(data@.len() as int, page_size as int),
{
    let len32: u32 = data.len() as u32;
    let pg = pages(len32, page_size);
    proof {
        lemma_pages_cover(len32 as int, page_size as int);
    }
    let padded: u32 = pg * page_size;
    proof {
        assert((page_size as int) * (pg as int) == (pg as int) * (page_size as int))
            by (nonlinear_arith);
    }
    let mut out = copy_range(data, 0, data.len());
    let pad = zero_vec((padded as usize) - data.len());
    let mut pad = pad;
    out.append(&mut pad);
    proof {
        assert(out@ =~= spec_pad_block(data@, page_size as int));
    }
    out
}

/// Pads with no bound on the page size beyond the segment's own width.
fn pad_block(data: &[u8], page_size: u32) -> (r: Vec<u8>)
    requires
        page_size > 0,
        data@.len() <= 0xFFFF_FFFF,
    ensures
        r@ == spec_pad_block(data@, page_size as int),
{
    let len32: u32 = data.len() as u32;
    let pg = pages(len32, page_size);
    proof {
        lemma_pages_cover(len32 as int, page_size as int);
    }
    let padded: u64 = (pg as u64) * (page_size as u64);
    proof {
        assert((page_size as int) * (pg as int) == (pg as int) * (page_size as int))
            by (nonlinear_arith);
        assert(padded - data@.len() < page_size as int);
    }
    let mut out = copy_range(data, 0, data.len());
    let pad = zero_vec((padded - data.len() as u64) as usize);
    let mut pad = pad;
    out.append(&mut pad);
    proof {
        assert(out@ =~= spec_pad_block(data@, page_size as int));
    }
    out
}

// ---------------------------------------------------------------------------
// Header values built from caller-supplied fields
// ---------------------------------------------------------------------------

/// The version-0 header a synthesis operation builds: magic fixed, sizes
/// as given, addresses and text parsed by their field encodings.
pub open spec fn spec_v0_header(
    kernel_addr: Seq<u8>,
    ramdisk_addr: Seq<u8>,
    second_addr: Seq<u8>,
    tags_addr: Seq<u8>,
    page_size: u32,
    os_version: Seq<u8>,
    name: Seq<u8>,
    cmdline: Seq<u8>,
    id: Seq<u8>,
    extra_cmdline: Seq<u8>,
    kernel_size: u32,
    ramdisk_size: u32,
    second_size: u32,
) -> HeaderV0View {
    (HeaderV0View {
        magic: crate::spec_boot_magic(),
        kernel_size,
        kernel_addr: spec_u32_to_le_bytes(spec_addr32_of_text(kernel_addr)),
        ramdisk_size,
        ramdisk_addr: spec_u32_to_le_bytes(spec_addr32_of_text(ramdisk_addr)),
        second_size,
        second_addr: spec_u32_to_le_bytes(spec_addr32_of_text(second_addr)),
        tags_addr: spec_u32_to_le_bytes(spec_addr32_of_text(tags_addr)),
        page_size,
        header_version: 0,
        os_version: spec_os_parse(os_version),
        name: spec_fit(name, 16),
        cmdline: spec_fit(cmdline, 512),
        id: spec_fit(id, 8),
        extra_cmdline: spec_fit(extra_cmdline, 1024),
    })
}

pub open spec fn spec_v1_header(
    kernel_addr: Seq<u8>,
    ramdisk_addr: Seq<u8>,
    second_addr: Seq<u8>,
    tags_addr: Seq<u8>,
    page_size: u32,
    os_version: Seq<u8>,
    name: Seq<u8>,
    cmdline: Seq<u8>,
    id: Seq<u8>,
    extra_cmdline: Seq<u8>,
    recovery_dtbo_offset: Seq<u8>,
    kernel_size: u32,
    ramdisk_size: u32,
    second_size: u32,
    recovery_dtbo_size: u32,
    header_size: u32,
) -> HeaderV1View {
    (HeaderV1View {
        magic: crate::spec_boot_magic(),
        kernel_size,
        kernel_addr: spec_u32_to_le_bytes(spec_addr32_of_text(kernel_addr)),
        ramdisk_size,
        ramdisk_addr: spec_u32_to_le_bytes(spec_addr32_of_text(ramdisk_addr)),
        second_size,
        second_addr: spec_u32_to_le_bytes(spec_addr32_of_text(second_addr)),
        tags_addr: spec_u32_to_le_bytes(spec_addr32_of_text(tags_addr)),
        page_size,
        header_version: 1,
        os_version: spec_os_parse(os_version),
        name: spec_fit(name, 16),
        cmdline: spec_fit(cmdline, 512),
        id: spec_fit(id, 8),
        extra_cmdline: spec_fit(extra_cmdline, 1024),
        recovery_dtbo_size,
        recovery_dtbo_offset: spec_u64_to_le_bytes(spec_addr64_of_text(recovery_dtbo_offset)),
        header_size,
    })
}

pub open spec fn spec_v2_header(
    kernel_addr: Seq<u8>,
    ramdisk_addr: Seq<u8>,
    second_addr: Seq<u8>,
    tags_addr: Seq<u8>,
    page_size: u32,
    os_version: Seq<u8>,
    name: Seq<u8>,
    cmdline: Seq<u8>,
    id: Seq<u8>,
    extra_cmdline: Seq<u8>,
    recovery_dtbo_offset: Seq<u8>,
    dtb_addr: Seq<u8>,
    kernel_size: u32,
    ramdisk_size: u32,
    second_size: u32,
    recovery_dtbo_size: u32,
    header_size: u32,
    dtb_size: u32,
) -> HeaderV2View {
    (HeaderV2View {
        magic: crate::spec_boot_magic(),
        kernel_size,
        kernel_addr: spec_u32_to_le_bytes(spec_addr32_of_text(kernel_addr)),
        ramdisk_size,
        ramdisk_addr: spec_u32_to_le_bytes(spec_addr32_of_text(ramdisk_addr)),
        second_size,
        second_addr: spec_u32_to_le_bytes(spec_addr32_of_text(second_addr)),
        tags_addr: spec_u32_to_le_bytes(spec_addr32_of_text(tags_addr)),
        page_size,
        header_version: 2,
        os_version: spec_os_parse(os_version),
        name: spec_fit(name, 16),
        cmdline: spec_fit(cmdline, 512),
        id: spec_fit(id, 8),
        extra_cmdline: spec_fit(extra_cmdline, 1024),
        recovery_dtbo_size,
        recovery_dtbo_offset: spec_u64_to_le_bytes(spec_addr64_of_text(recovery_dtbo_offset)),
        header_size,
        dtb_size,
        dtb_addr: spec_u64_to_le_bytes(spec_addr64_of_text(dtb_addr)),
    })
}

pub open spec fn spec_v3_header(
    os_version: Seq<u8>,
    cmdline: Seq<u8>,
    kernel_size: u32,
    ramdisk_size: u32,
    header_size: u32,
) -> HeaderV3View {
    (HeaderV3View {
        magic: crate::spec_boot_magic(),
        kernel_size,
        ramdisk_size,
        os_version: spec_os_parse(os_version),
        header_size,
        reserved: seq![0u32, 0u32, 0u32, 0u32],
        header_version: 3,
        cmdline: spec_fit(cmdline, 1536),
    })
}

pub open spec fn spec_v4_header(
    os_version: Seq<u8>,
    cmdline: Seq<u8>,
    kernel_size: u32,
    ramdisk_size: u32,
    header_size: u32,
    signature_size: u32,
) -> HeaderV4View {
    (HeaderV4View {
        magic: crate::spec_boot_magic(),
        kernel_size,
        ramdisk_size,
        os_version: spec_os_parse(os_version),
        header_size,
        reserved: seq![0u32, 0u32, 0u32, 0u32],
        header_version: 4,
        cmdline: spec_fit(cmdline, 1536),
        signature_size,
    })
}

/// Assembles a whole container file: the encoded header padded to one
/// page, then each segment padded to its own page boundary.
pub fn build_image(header_bytes: &[u8], page_size: u32, comps: &Vec<Vec<u8>>) -> (r: Vec<u8>)
    requires
        page_size > 0,
        header_bytes@.len() <= page_size,
        forall|i: int| 0 <= i < comps@.len() ==> (#[trigger] comps@[i])@.len() <= 0xFFFF_FFFF,
    ensures
        r@ == spec_image(header_bytes@, page_size as int, comps.deep_view()),
{
    let ghost cv = comps.deep_view();
    let mut out = copy_range(header_bytes, 0, header_bytes.len());
    let pad = zero_vec((page_size as usize) - header_bytes.len());
    let mut pad = pad;
    out.append(&mut pad);
    let ghost base = out@;
    proof {
        assert(cv.len() == comps@.len());
        assert(cv.take(0) =~= Seq::<Seq<u8>>::empty());
        assert(out@ =~= base + spec_blocks(cv.take(0), page_size as int));
    }
    let mut i: usize = 0;
    while i < comps.len()
        invariant
            0 <= i <= comps@.len(),
            page_size > 0,
            cv == comps.deep_view(),
            cv.len() == comps@.len(),
            forall|j: int| 0 <= j < comps@.len() ==> (#[trigger] comps@[j])@.len() <= 0xFFFF_FFFF,
            out@ == base + spec_blocks(cv.take(i as int), page_size as int),
        decreases comps@.len() - i,
    {
        proof {
            assert(cv[i as int] =~= comps@[i as int]@);
        }
        let mut blk = pad_block(comps[i].as_slice(), page_size);
        out.append(&mut blk);
        proof {
            lemma_blocks_snoc(cv, page_size as int, i as int);
            assert(out@ =~= base + spec_blocks(cv.take(i as int + 1), page_size as int));
        }
        i = i + 1;
    }
    proof {
        assert(cv.take(cv.len() as int) =~= cv);
        assert(out@ =~= spec_image(header_bytes@, page_size as int, cv));
    }
    out
}

/// An owned copy of an optional segment's bytes.
fn opt_to_vec(o: Option<&[u8]>) -> (r: Vec<u8>)
    ensures
        r@ == spec_opt_bytes(o),
{
    match o {
        Some(s) => copy_range(s, 0, s.len()),
        None => Vec::new(),
    }
}

// ---------------------------------------------------------------------------
// Synthesis
// ---------------------------------------------------------------------------

/// Synthesizes a version-0 container file from its parts. The declared
/// sizes are the segments' raw byte counts; every segment is stored
/// page-padded. A page size too small to hold the header is rejected.
pub fn create_v0(
    kernel_data: &[u8],
    ramdisk_data: &[u8],
    second_data: Option<&[u8]>,
    page_size: u32,
    kernel_addr: &str,
    ramdisk_addr: &str,
    second_addr: &str,
    tags_addr: &str,
    os_version: &str,
    name: &str,
    cmdline: &str,
    id: &str,
    extra_cmdline: &str,
) -> (r: Result<Vec<u8>, AbootCrafterError>)
    requires
        kernel_data@.len() <= 0xFFFF_FFFF,
        ramdisk_data@.len() <= 0xFFFF_FFFF,
        spec_opt_bytes(second_data).len() <= 0xFFFF_FFFF,
    ensures
        (page_size as int) < 1608 <==> (r matches Err(e) && e is ConfigError),
        (page_size as int) >= 1608 ==> (r matches Ok(img) && img@ == spec_image(
            spec_encode_v0(
                spec_v0_header(
                    kernel_addr.spec_bytes(),
                    ramdisk_addr.spec_bytes(),
                    second_addr.spec_bytes(),
                    tags_addr.spec_bytes(),
                    page_size,
                    os_version.spec_bytes(),
                    name.spec_bytes(),
                    cmdline.spec_bytes(),
                    id.spec_bytes(),
                    extra_cmdline.spec_bytes(),
                    kernel_data@.len() as u32,
                    ramdisk_data@.len() as u32,
                    spec_opt_bytes(second_data).len() as u32,
                ),
            ),
            page_size as int,
            seq![kernel_data@, ramdisk_data@, spec_opt_bytes(second_data)],
        )),
{
    if page_size < 1608 {
        return Err(AbootCrafterError::ConfigError(String::from_str("page size too small")));
    }
    let second = opt_to_vec(second_data);
    let hdr = AndroidHeaderVersion0 {
        magic: AndroidBootMagic::default(),
        kernel_size: kernel_data.len() as u32,
        kernel_addr: AddressU32::from_text(kernel_addr),
        ramdisk_size: ramdisk_data.len() as u32,
        ramdisk_addr: AddressU32::from_text(ramdisk_addr),
        second_size: second.len() as u32,
        second_addr: AddressU32::from_text(second_addr),
        tags_addr: AddressU32::from_text(tags_addr),
        page_size,
        header_version: 0,
        os_version: OSVersion::from_text(os_version),
        name: Name::from_text(name),
        cmdline: Cmdline::from_text(cmdline),
        id: Id::from_text(id),
        extra_cmdline: ExtraCmdline::from_text(extra_cmdline),
    };
    proof {
        assert(hdr@ =~= spec_v0_header(
            kernel_addr.spec_bytes(),
            ramdisk_addr.spec_bytes(),
            second_addr.spec_bytes(),
            tags_addr.spec_bytes(),
            page_size,
            os_version.spec_bytes(),
            name.spec_bytes(),
            cmdline.spec_bytes(),
            id.spec_bytes(),
            extra_cmdline.spec_bytes(),
            kernel_data@.len() as u32,
            ramdisk_data@.len() as u32,
            spec_opt_bytes(second_data).len() as u32,
        ));
    }
    let hb = hdr.encode();
    let mut comps: Vec<Vec<u8>> = Vec::new();
    comps.push(copy_range(kernel_data, 0, kernel_data.len()));
    comps.push(copy_range(ramdisk_data, 0, ramdisk_data.len()));
    comps.push(second);
    proof {
        assert(comps.deep_view() =~~= seq![
            kernel_data@,
            ramdisk_data@,
            spec_opt_bytes(second_data),
        ]);
    }
    Ok(build_image(hb.as_slice(), page_size, &comps))
}

/// Synthesizes a version-1 container file from its parts.
pub fn create_v1(
    kernel_data: &[u8],
    ramdisk_data: &[u8],
    second_data: Option<&[u8]>,
    recovery_dtbo_data: Option<&[u8]>,
    page_size: u32,
    kernel_addr: &str,
    ramdisk_addr: &str,
    second_addr: &str,
    tags_addr: &str,
    os_version: &str,
    name: &str,
    cmdline: &str,
    id: &str,
    extra_cmdline: &str,
    recovery_dtbo_offset: &str,
) -> (r: Result<Vec<u8>, AbootCrafterError>)
    requires
        kernel_data@.len() <= 0xFFFF_FFFF,
        ramdisk_data@.len() <= 0xFFFF_FFFF,
        spec_opt_bytes(second_data).len() <= 0xFFFF_FFFF,
        spec_opt_bytes(recovery_dtbo_data).len() <= 0xFFFF_FFFF,
    ensures
        (page_size as int) < 1624 <==> (r matches Err(e) && e is ConfigError),
        (page_size as int) >= 1624 ==> (r matches Ok(img) && img@ == spec_image(
            spec_encode_v1(
                spec_v1_header(
                    kernel_addr.spec_bytes(),
                    ramdisk_addr.spec_bytes(),
                    second_addr.spec_bytes(),
                    tags_addr.spec_bytes(),
                    page_size,
                    os_version.spec_bytes(),
                    name.spec_bytes(),
                    cmdline.spec_bytes(),
                    id.spec_bytes(),
                    extra_cmdline.spec_bytes(),
                    recovery_dtbo_offset.spec_bytes(),
                    kernel_data@.len() as u32,
                    ramdisk_data@.len() as u32,
                    spec_opt_bytes(second_data).len() as u32,
                    spec_opt_bytes(recovery_dtbo_data).len() as u32,
                    0,
                ),
            ),
            page_size as int,
            seq![
                kernel_data@,
                ramdisk_data@,
                spec_opt_bytes(second_data),
                spec_opt_bytes(recovery_dtbo_data),
            ],
        )),
{
    if page_size < 1624 {
        return Err(AbootCrafterError::ConfigError(String::from_str("page size too small")));
    }
    let second = opt_to_vec(second_data);
    let dtbo = opt_to_vec(recovery_dtbo_data);
    let hdr = AndroidHeaderVersion1 {
        magic: AndroidBootMagic::default(),
        kernel_size: kernel_data.len() as u32,
        kernel_addr: AddressU32::from_text(kernel_addr),
        ramdisk_size: ramdisk_data.len() as u32,
        ramdisk_addr: AddressU32::from_text(ramdisk_addr),
        second_size: second.len() as u32,
        second_addr: AddressU32::from_text(second_addr),
        tags_addr: AddressU32::from_text(tags_addr),
        page_size,
        header_version: 1,
        os_version: OSVersion::from_text(os_version),
        name: Name::from_text(name),
        cmdline: Cmdline::from_text(cmdline),
        id: Id::from_text(id),
        extra_cmdline: ExtraCmdline::from_text(extra_cmdline),
        recovery_dtbo_size: dtbo.len() as u32,
        recovery_dtbo_offset: AddressU64::from_text(recovery_dtbo_offset),
        header_size: 0,
    };
    proof {
        assert(hdr@ =~= spec_v1_header(
            kernel_addr.spec_bytes(),
            ramdisk_addr.spec_bytes(),
            second_addr.spec_bytes(),
            tags_addr.spec_bytes(),
            page_size,
            os_version.spec_bytes(),
            name.spec_bytes(),
            cmdline.spec_bytes(),
            id.spec_bytes(),
            extra_cmdline.spec_bytes(),
            recovery_dtbo_offset.spec_bytes(),
            kernel_data@.len() as u32,
            ramdisk_data@.len() as u32,
            spec_opt_bytes(second_data).len() as u32,
            spec_opt_bytes(recovery_dtbo_data).len() as u32,
            0,
        ));
    }
    let hb = hdr.encode();
    let mut comps: Vec<Vec<u8>> = Vec::new();
    comps.push(copy_range(kernel_data, 0, kernel_data.len()));
    comps.push(copy_range(ramdisk_data, 0, ramdisk_data.len()));
    comps.push(second);
    comps.push(dtbo);
    proof {
        assert(comps.deep_view() =~~= seq![
            kernel_data@,
            ramdisk_data@,
            spec_opt_bytes(second_data),
            spec_opt_bytes(recovery_dtbo_data),
        ]);
    }
    Ok(build_image(hb.as_slice(), page_size, &comps))
}

/// Synthesizes a version-2 container file from its parts.
pub fn create_v2(
    kernel_data: &[u8],
    ramdisk_data: &[u8],
    second_data: Option<&[u8]>,
    recovery_dtbo_data: Option<&[u8]>,
    dtb_data: Option<&[u8]>,
    page_size: u32,
    kernel_addr: &str,
    ramdisk_addr: &str,
    second_addr: &str,
    tags_addr: &str,
    os_version: &str,
    name: &str,
    cmdline: &str,
    id: &str,
    extra_cmdline: &str,
    recovery_dtbo_offset: &str,
    dtb_addr: &str,
) -> (r: Result<Vec<u8>, AbootCrafterError>)
    requires
        kernel_data@.len() <= 0xFFFF_FFFF,
        ramdisk_data@.len() <= 0xFFFF_FFFF,
        spec_opt_bytes(second_data).len() <= 0xFFFF_FFFF,
        spec_opt_bytes(recovery_dtbo_data).len() <= 0xFFFF_FFFF,
        spec_opt_bytes(dtb_data).len() <= 0xFFFF_FFFF,
    ensures
        (page_size as int) < 1636 <==> (r matches Err(e) && e is ConfigError),
        (page_size as int) >= 1636 ==> (r matches Ok(img) && img@ == spec_image(
            spec_encode_v2(
                spec_v2_header(
                    kernel_addr.spec_bytes(),
                    ramdisk_addr.spec_bytes(),
                    second_addr.spec_bytes(),
                    tags_addr.spec_bytes(),
                    page_size,
                    os_version.spec_bytes(),
                    name.spec_bytes(),
                    cmdline.spec_bytes(),
                    id.spec_bytes(),
                    extra_cmdline.spec_bytes(),
                    recovery_dtbo_offset.spec_bytes(),
                    dtb_addr.spec_bytes(),
                    kernel_data@.len() as u32,
                    ramdisk_data@.len() as u32,
                    spec_opt_bytes(second_data).len() as u32,
                    spec_opt_bytes(recovery_dtbo_data).len() as u32,
                    0,
                    spec_opt_bytes(dtb_data).len() as u32,
                ),
            ),
            page_size as int,
            seq![
                kernel_data@,
                ramdisk_data@,
                spec_opt_bytes(second_data),
                spec_opt_bytes(recovery_dtbo_data),
                spec_opt_bytes(dtb_data),
            ],
        )),
{
    if page_size < 1636 {
        return Err(AbootCrafterError::ConfigError(String::from_str("page size too small")));
    }
    let second = opt_to_vec(second_data);
    let dtbo = opt_to_vec(recovery_dtbo_data);
    let dtb = opt_to_vec(dtb_data);
    let hdr = AndroidHeaderVersion2 {
        magic: AndroidBootMagic::default(),
        kernel_size: kernel_data.len() as u32,
        kernel_addr: AddressU32::from_text(kernel_addr),
        ramdisk_size: ramdisk_data.len() as u32,
        ramdisk_addr: AddressU32::from_text(ramdisk_addr),
        second_size: second.len() as u32,
        second_addr: AddressU32::from_text(second_addr),
        tags_addr: AddressU32::from_text(tags_addr),
        page_size,
        header_version: 2,
        os_version: OSVersion::from_text(os_version),
        name: Name::from_text(name),
        cmdline: Cmdline::from_text(cmdline),
        id: Id::from_text(id),
        extra_cmdline: ExtraCmdline::from_text(extra_cmdline),
        recovery_dtbo_size: dtbo.len() as u32,
        recovery_dtbo_offset: AddressU64::from_text(recovery_dtbo_offset),
        header_size: 0,
        dtb_size: dtb.len() as u32,
        dtb_addr: AddressU64::from_text(dtb_addr),
    };
    proof {
        assert(hdr@ =~= spec_v2_header(
            kernel_addr.spec_bytes(),
            ramdisk_addr.spec_bytes(),
            second_addr.spec_bytes(),
            tags_addr.spec_bytes(),
            page_size,
            os_version.spec_bytes(),
            name.spec_bytes(),
            cmdline.spec_bytes(),
            id.spec_bytes(),
            extra_cmdline.spec_bytes(),
            recovery_dtbo_offset.spec_bytes(),
            dtb_addr.spec_bytes(),
            kernel_data@.len() as u32,
            ramdisk_data@.len() as u32,
            spec_opt_bytes(second_data).len() as u32,
            spec_opt_bytes(recovery_dtbo_data).len() as u32,
            0,
            spec_opt_bytes(dtb_data).len() as u32,
        ));
    }
    let hb = hdr.encode();
    let mut comps: Vec<Vec<u8>> = Vec::new();
    comps.push(copy_range(kernel_data, 0, kernel_data.len()));
    comps.push(copy_range(ramdisk_data, 0, ramdisk_data.len()));
    comps.push(second);
    comps.push(dtbo);
    comps.push(dtb);
    proof {
        assert(comps.deep_view() =~~= seq![
            kernel_data@,
            ramdisk_data@,
            spec_opt_bytes(second_data),
            spec_opt_bytes(recovery_dtbo_data),
            spec_opt_bytes(dtb_data),
        ]);
    }
    Ok(build_image(hb.as_slice(), page_size, &comps))
}

/// Synthesizes a version-3 container file; the page size is the format's
/// fixed constant.
pub fn create_v3(kernel_data: &[u8], ramdisk_data: &[u8], os_version: &str, cmdline: &str) -> (r:
    Vec<u8>)
    requires
        kernel_data@.len() <= 0xFFFF_FFFF,
        ramdisk_data@.len() <= 0xFFFF_FFFF,
    ensures
        r@ == spec_image(
            spec_encode_v3(
                spec_v3_header(
                    os_version.spec_bytes(),
                    cmdline.spec_bytes(),
                    kernel_data@.len() as u32,
                    ramdisk_data@.len() as u32,
                    0,
                ),
            ),
            4096,
            seq![kernel_data@, ramdisk_data@],
        ),
{
    let reserved = [0u32, 0u32, 0u32, 0u32];
    let hdr = AndroidHeaderVersion3 {
        magic: AndroidBootMagic::default(),
        kernel_size: kernel_data.len() as u32,
        ramdisk_size: ramdisk_data.len() as u32,
        os_version: OSVersion::from_text(os_version),
        header_size: 0,
        reserved,
        header_version: 3,
        cmdline: CmdlineExtended::from_text(cmdline),
    };
    proof {
        assert(hdr@.reserved =~= seq![0u32, 0u32, 0u32, 0u32]);
        assert(hdr@ =~= spec_v3_header(
            os_version.spec_bytes(),
            cmdline.spec_bytes(),
            kernel_data@.len() as u32,
            ramdisk_data@.len() as u32,
            0,
        ));
    }
    let hb = hdr.encode();
    let mut comps: Vec<Vec<u8>> = Vec::new();
    comps.push(copy_range(kernel_data, 0, kernel_data.len()));
    comps.push(copy_range(ramdisk_data, 0, ramdisk_data.len()));
    proof {
        assert(comps.deep_view() =~~= seq![kernel_data@, ramdisk_data@]);
    }
    build_image(hb.as_slice(), crate::PAGE_SIZE_V3, &comps)
}

/// Synthesizes a version-4 container file; the page size is the format's
/// fixed constant.
pub fn create_v4(kernel_data: &[u8], ramdisk_data: &[u8], os_version: &str, cmdline: &str) -> (r:
    Vec<u8>)
    requires
        kernel_data@.len() <= 0xFFFF_FFFF,
        ramdisk_data@.len() <= 0xFFFF_FFFF,
    ensures
        r@ == spec_image(
            spec_encode_v4(
                spec_v4_header(
                    os_version.spec_bytes(),
                    cmdline.spec_bytes(),
                    kernel_data@.len() as u32,
                    ramdisk_data@.len() as u32,
                    0,
                    0,
                ),
            ),
            4096,
            seq![kernel_data@, ramdisk_data@],
        ),
{
    let reserved = [0u32, 0u32, 0u32, 0u32];
    let hdr = AndroidHeaderVersion4 {
        magic: AndroidBootMagic::default(),
        kernel_size: kernel_data.len() as u32,
        ramdisk_size: ramdisk_data.len() as u32,
        os_version: OSVersion::from_text(os_version),
        header_size: 0,
        reserved,
        header_version: 4,
        cmdline: CmdlineExtended::from_text(cmdline),
        signature_size: 0,
    };
    proof {
        assert(hdr@.reserved =~= seq![0u32, 0u32, 0u32, 0u32]);
        assert(hdr@ =~= spec_v4_header(
            os_version.spec_bytes(),
            cmdline.spec_bytes(),
            kernel_data@.len() as u32,
            ramdisk_data@.len() as u32,
            0,
            0,
        ));
    }
    let hb = hdr.encode();
    let mut comps: Vec<Vec<u8>> = Vec::new();
    comps.push(copy_range(kernel_data, 0, kernel_data.len()));
    comps.push(copy_range(ramdisk_data, 0, ramdisk_data.len()));
    proof {
        assert(comps.deep_view() =~~= seq![kernel_data@, ramdisk_data@]);
    }
    build_image(hb.as_slice(), crate::PAGE_SIZE_V3, &comps)
}

/// Synthesizes a container file of any supported version. Kernel, ramdisk
/// and second sizes come from the data; the remaining size fields are
/// taken as given. A version outside 0..=4 is rejected, as is a page size
/// too small to hold the chosen header.
pub fn create(
    kernel_data: &[u8],
    ramdisk_data: &[u8],
    second_data: Option<&[u8]>,
    version: u32,
    page_size: u32,
    kernel_addr: &str,
    ramdisk_addr: &str,
    second_addr: &str,
    tags_addr: &str,
    os_version: &str,
    name: &str,
    cmdline: &str,
    id: &str,
    extra_cmdline: &str,
    recovery_dtbo_size: u32,
    recovery_dtbo_offset: &str,
    header_size: u32,
    dtb_size: u32,
    dtb_addr: &str,
    signature_size: u32,
) -> (r: Result<Vec<u8>, AbootCrafterError>)
    requires
        kernel_data@.len() <= 0xFFFF_FFFF,
        ramdisk_data@.len() <= 0xFFFF_FFFF,
        spec_opt_bytes(second_data).len() <= 0xFFFF_FFFF,
    ensures
        version > 4 <==> (r matches Err(e) && e is UnsupportedVersion),
        version <= 2 && (page_size as int) < spec_header_len(version) ==> (r matches Err(e)
            && e is ConfigError),
        version == 0 && (page_size as int) >= 1608 ==> (r matches Ok(img) && img@ == spec_image(
            spec_encode_v0(
                spec_v0_header(
                    kernel_addr.spec_bytes(),
                    ramdisk_addr.spec_bytes(),
                    second_addr.spec_bytes(),
                    tags_addr.spec_bytes(),
                    page_size,
                    os_version.spec_bytes(),
                    name.spec_bytes(),
                    cmdline.spec_bytes(),
                    id.spec_bytes(),
                    extra_cmdline.spec_bytes(),
                    kernel_data@.len() as u32,
                    ramdisk_data@.len() as u32,
                    spec_opt_bytes(second_data).len() as u32,
                ),
            ),
            page_size as int,
            seq![kernel_data@, ramdisk_data@, spec_opt_bytes(second_data)],
        )),
        version == 1 && (page_size as int) >= 1624 ==> (r matches Ok(img) && img@ == spec_image(
            spec_encode_v1(
                spec_v1_header(
                    kernel_addr.spec_bytes(),
                    ramdisk_addr.spec_bytes(),
                    second_addr.spec_bytes(),
                    tags_addr.spec_bytes(),
                    page_size,
                    os_version.spec_bytes(),
                    name.spec_bytes(),
                    cmdline.spec_bytes(),
                    id.spec_bytes(),
                    extra_cmdline.spec_bytes(),
                    recovery_dtbo_offset.spec_bytes(),
                    kernel_data@.len() as u32,
                    ramdisk_data@.len() as u32,
                    spec_opt_bytes(second_data).len() as u32,
                    recovery_dtbo_size,
                    header_size,
                ),
            ),
            page_size as int,
            seq![kernel_data@, ramdisk_data@, spec_opt_bytes(second_data)],
        )),
        version == 2 && (page_size as int) >= 1636 ==> (r matches Ok(img) && img@ == spec_image(
            spec_encode_v2(
                spec_v2_header(
                    kernel_addr.spec_bytes(),
                    ramdisk_addr.spec_bytes(),
                    second_addr.spec_bytes(),
                    tags_addr.spec_bytes(),
                    page_size,
                    os_version.spec_bytes(),
                    name.spec_bytes(),
                    cmdline.spec_bytes(),
                    id.spec_bytes(),
                    extra_cmdline.spec_bytes(),
                    recovery_dtbo_offset.spec_bytes(),
                    dtb_addr.spec_bytes(),
                    kernel_data@.len() as u32,
                    ramdisk_data@.len() as u32,
                    spec_opt_bytes(second_data).len() as u32,
                    recovery_dtbo_size,
                    header_size,
                    dtb_size,
                ),
            ),
            page_size as int,
            seq![kernel_data@, ramdisk_data@, spec_opt_bytes(second_data)],
        )),
        version == 3 ==> (r matches Ok(img) && img@ == spec_image(
            spec_encode_v3(
                spec_v3_header(
                    os_version.spec_bytes(),
                    cmdline.spec_bytes(),
                    kernel_data@.len() as u32,
                    ramdisk_data@.len() as u32,
                    header_size,
                ),
            ),
            4096,
            seq![kernel_data@, ramdisk_data@],
        )),
        version == 4 ==> (r matches Ok(img) && img@ == spec_image(
            spec_encode_v4(
                spec_v4_header(
                    os_version.spec_bytes(),
                    cmdline.spec_bytes(),
                    kernel_data@.len() as u32,
                    ramdisk_data@.len() as u32,
                    header_size,
                    signature_size,
                ),
            ),
            4096,
            seq![kernel_data@, ramdisk_data@],
        )),
{
    if version > 4 {
        return Err(AbootCrafterError::UnsupportedVersion);
    }
    let hdr: AndroidHeader;
    if version == 0 {
        if page_size < 1608 {
            return Err(AbootCrafterError::ConfigError(String::from_str("page size too small")));
        }
        let second = opt_to_vec(second_data);
        hdr = AndroidHeader::V0(
            AndroidHeaderVersion0 {
                magic: AndroidBootMagic::default(),
                kernel_size: kernel_data.len() as u32,
                kernel_addr: AddressU32::from_text(kernel_addr),
                ramdisk_size: ramdisk_data.len() as u32,
                ramdisk_addr: AddressU32::from_text(ramdisk_addr),
                second_size: second.len() as u32,
                second_addr: AddressU32::from_text(second_addr),
                tags_addr: AddressU32::from_text(tags_addr),
                page_size,
                header_version: 0,
                os_version: OSVersion::from_text(os_version),
                name: Name::from_text(name),
                cmdline: Cmdline::from_text(cmdline),
                id: Id::from_text(id),
                extra_cmdline: ExtraCmdline::from_text(extra_cmdline),
            },
        );
        proof {
            assert(hdr@->V0_0 =~= spec_v0_header(
                kernel_addr.spec_bytes(),
                ramdisk_addr.spec_bytes(),
                second_addr.spec_bytes(),
                tags_addr.spec_bytes(),
                page_size,
                os_version.spec_bytes(),
                name.spec_bytes(),
                cmdline.spec_bytes(),
                id.spec_bytes(),
                extra_cmdline.spec_bytes(),
                kernel_data@.len() as u32,
                ramdisk_data@.len() as u32,
                spec_opt_bytes(second_data).len() as u32,
            ));
        }
        let hb = hdr.encode();
        let mut comps: Vec<Vec<u8>> = Vec::new();
        comps.push(copy_range(kernel_data, 0, kernel_data.len()));
        comps.push(copy_range(ramdisk_data, 0, ramdisk_data.len()));
        comps.push(second);
        proof {
            assert(comps.deep_view() =~~= seq![
                kernel_data@,
                ramdisk_data@,
                spec_opt_bytes(second_data),
            ]);
        }
        return Ok(build_image(hb.as_slice(), page_size, &comps));
    }
    if version == 1 {
        if page_size < 1624 {
            return Err(AbootCrafterError::ConfigError(String::from_str("page size too small")));
        }
        let second = opt_to_vec(second_data);
        hdr = AndroidHeader::V1(
            AndroidHeaderVersion1 {
                magic: AndroidBootMagic::default(),
                kernel_size: kernel_data.len() as u32,
                kernel_addr: AddressU32::from_text(kernel_addr),
                ramdisk_size: ramdisk_data.len() as u32,
                ramdisk_addr: AddressU32::from_text(ramdisk_addr),
                second_size: second.len() as u32,
                second_addr: AddressU32::from_text(second_addr),
                tags_addr: AddressU32::from_text(tags_addr),
                page_size,
                header_version: 1,
                os_version: OSVersion::from_text(os_version),
                name: Name::from_text(name),
                cmdline: Cmdline::from_text(cmdline),
                id: Id::from_text(id),
                extra_cmdline: ExtraCmdline::from_text(extra_cmdline),
                recovery_dtbo_size,
                recovery_dtbo_offset: AddressU64::from_text(recovery_dtbo_offset),
                header_size,
            },
        );
        proof {
            assert(hdr@->V1_0 =~= spec_v1_header(
                kernel_addr.spec_bytes(),
                ramdisk_addr.spec_bytes(),
                second_addr.spec_bytes(),
                tags_addr.spec_bytes(),
                page_size,
                os_version.spec_bytes(),
                name.spec_bytes(),
                cmdline.spec_bytes(),
                id.spec_bytes(),
                extra_cmdline.spec_bytes(),
                recovery_dtbo_offset.spec_bytes(),
                kernel_data@.len() as u32,
                ramdisk_data@.len() as u32,
                spec_opt_bytes(second_data).len() as u32,
                recovery_dtbo_size,
                header_size,
            ));
        }
        let hb = hdr.encode();
        let mut comps: Vec<Vec<u8>> = Vec::new();
        comps.push(copy_range(kernel_data, 0, kernel_data.len()));
        comps.push(copy_range(ramdisk_data, 0, ramdisk_data.len()));
        comps.push(second);
        proof {
            assert(comps.deep_view() =~~= seq![
                kernel_data@,
                ramdisk_data@,
                spec_opt_bytes(second_data),
            ]);
        }
        return Ok(build_image(hb.as_slice(), page_size, &comps));
    }
    if version == 2 {
        if page_size < 1636 {
            return Err(AbootCrafterError::ConfigError(String::from_str("page size too small")));
        }
        let second = opt_to_vec(second_data);
        hdr = AndroidHeader::V2(
            AndroidHeaderVersion2 {
                magic: AndroidBootMagic::default(),
                kernel_size: kernel_data.len() as u32,
                kernel_addr: AddressU32::from_text(kernel_addr),
                ramdisk_size: ramdisk_data.len() as u32,
                ramdisk_addr: AddressU32::from_text(ramdisk_addr),
                second_size: second.len() as u32,
                second_addr: AddressU32::from_text(second_addr),
                tags_addr: AddressU32::from_text(tags_addr),
                page_size,
                header_version: 2,
                os_version: OSVersion::from_text(os_version),
                name: Name::from_text(name),
                cmdline: Cmdline::from_text(cmdline),
                id: Id::from_text(id),
                extra_cmdline: ExtraCmdline::from_text(extra_cmdline),
                recovery_dtbo_size,
                recovery_dtbo_offset: AddressU64::from_text(recovery_dtbo_offset),
                header_size,
                dtb_size,
                dtb_addr: AddressU64::from_text(dtb_addr),
            },
        );
        proof {
            assert(hdr@->V2_0 =~= spec_v2_header(
                kernel_addr.spec_bytes(),
                ramdisk_addr.spec_bytes(),
                second_addr.spec_bytes(),
                tags_addr.spec_bytes(),
                page_size,
                os_version.spec_bytes(),
                name.spec_bytes(),
                cmdline.spec_bytes(),
                id.spec_bytes(),
                extra_cmdline.spec_bytes(),
                recovery_dtbo_offset.spec_bytes(),
                dtb_addr.spec_bytes(),
                kernel_data@.len() as u32,
                ramdisk_data@.len() as u32,
                spec_opt_bytes(second_data).len() as u32,
                recovery_dtbo_size,
                header_size,
                dtb_size,
            ));
        }
        let hb = hdr.encode();
        let mut comps: Vec<Vec<u8>> = Vec::new();
        comps.push(copy_range(kernel_data, 0, kernel_data.len()));
        comps.push(copy_range(ramdisk_data, 0, ramdisk_data.len()));
        comps.push(second);
        proof {
            assert(comps.deep_view() =~~= seq![
                kernel_data@,
                ramdisk_data@,
                spec_opt_bytes(second_data),
            ]);
        }
        return Ok(build_image(hb.as_slice(), page_size, &comps));
    }
    if version == 3 {
        let reserved = [0u32, 0u32, 0u32, 0u32];
        hdr = AndroidHeader::V3(
            AndroidHeaderVersion3 {
                magic: AndroidBootMagic::default(),
                kernel_size: kernel_data.len() as u32,
                ramdisk_size: ramdisk_data.len() as u32,
                os_version: OSVersion::from_text(os_version),
                header_size,
                reserved,
                header_version: 3,
                cmdline: CmdlineExtended::from_text(cmdline),
            },
        );
        proof {
            assert(hdr@->V3_0.reserved =~= seq![0u32, 0u32, 0u32, 0u32]);
            assert(hdr@->V3_0 =~= spec_v3_header(
                os_version.spec_bytes(),
                cmdline.spec_bytes(),
                kernel_data@.len() as u32,
                ramdisk_data@.len() as u32,
                header_size,
            ));
        }
        let hb = hdr.encode();
        let mut comps: Vec<Vec<u8>> = Vec::new();
        comps.push(copy_range(kernel_data, 0, kernel_data.len()));
        comps.push(copy_range(ramdisk_data, 0, ramdisk_data.len()));
        proof {
            assert(comps.deep_view() =~~= seq![kernel_data@, ramdisk_data@]);
        }
        return Ok(build_image(hb.as_slice(), crate::PAGE_SIZE_V3, &comps));
    }
    let reserved = [0u32, 0u32, 0u32, 0u32];
    hdr = AndroidHeader::V4(
        AndroidHeaderVersion4 {
            magic: AndroidBootMagic::default(),
            kernel_size: kernel_data.len() as u32,
            ramdisk_size: ramdisk_data.len() as u32,
            os_version: OSVersion::from_text(os_version),
            header_size,
            reserved,
            header_version: 4,
            cmdline: CmdlineExtended::from_text(cmdline),
            signature_size,
        },
    );
    proof {
        assert(hdr@->V4_0.reserved =~= seq![0u32, 0u32, 0u32, 0u32]);
        assert(hdr@->V4_0 =~= spec_v4_header(
            os_version.spec_bytes(),
            cmdline.spec_bytes(),
            kernel_data@.len() as u32,
            ramdisk_data@.len() as u32,
            header_size,
            signature_size,
        ));
    }
    let hb = hdr.encode();
    let mut comps: Vec<Vec<u8>> = Vec::new();
    comps.push(copy_range(kernel_data, 0, kernel_data.len()));
    comps.push(copy_range(ramdisk_data, 0, ramdisk_data.len()));
    proof {
        assert(comps.deep_view() =~~= seq![kernel_data@, ramdisk_data@]);
    }
    Ok(build_image(hb.as_slice(), crate::PAGE_SIZE_V3, &comps))
}

// ---------------------------------------------------------------------------
// Extraction
// ---------------------------------------------------------------------------

/// One segment read back out of a container file.
#[derive(Debug)]
pub struct ExtractedComponent {
    pub kind: ComponentKind,
    pub data: Vec<u8>,
}

/// The abstract value of an extracted-segment list.
pub open spec fn spec_extracted_view(es: Seq<ExtractedComponent>) -> Seq<(ComponentKind, Seq<u8>)> {
    es.map_values(|e: ExtractedComponent| (e.kind, e.data@))
}

/// The segments extraction yields, from segment `i` on: each one with a
/// positive declared size, paired with exactly its declared bytes read at
/// its computed offset. Zero-sized segments yield nothing.
pub open spec fn spec_extract_from(data: Seq<u8>, h: HeaderView, i: int) -> Seq<
    (ComponentKind, Seq<u8>),
>
    decreases spec_component_sizes(h).len() - i,
{
    let cs = spec_component_sizes(h);
    let so = spec_sizes_only(h);
    let p = h.page_size() as int;
    if i < 0 || i >= cs.len() {
        Seq::empty()
    } else {
        let rest = spec_extract_from(data, h, i + 1);
        if cs[i].1 > 0 {
            seq![
                (
                    cs[i].0,
                    data.subrange(
                        spec_offset_at(so, p, i),
                        spec_offset_at(so, p, i) + cs[i].1,
                    ),
                ),
            ] + rest
        } else {
            rest
        }
    }
}

/// Extraction succeeds exactly when the page size is positive and every
/// segment with a positive size lies inside the file.
pub open spec fn spec_extract_ok(data: Seq<u8>, h: HeaderView) -> bool {
    let cs = spec_component_sizes(h);
    let so = spec_sizes_only(h);
    let p = h.page_size() as int;
    &&& p > 0
    &&& forall|i: int|
        0 <= i < cs.len() && (#[trigger] cs[i]).1 > 0 ==> spec_offset_at(so, p, i) + cs[i].1
            <= data.len()
}

/// Reads every present segment out of a whole container file: for each
/// segment whose declared size is positive, exactly that many bytes at
/// its computed offset. Segments of size zero produce no output.
pub fn extract(data: &[u8], boot: &AndroidBootFile) -> (r: Result<
    Vec<ExtractedComponent>,
    AbootCrafterError,
>)
    ensures
        r is Ok <==> spec_extract_ok(data@, boot.header@),
        boot.header@.page_size() == 0 ==> (r matches Err(e) && e is ConfigError),
        boot.header@.page_size() > 0 && !spec_extract_ok(data@, boot.header@) ==> (
        r matches Err(e) && e is IoError),
        spec_extract_ok(data@, boot.header@) ==> (r matches Ok(es) && spec_extracted_view(es@)
            == spec_extract_from(data@, boot.header@, 0)),
{
    let ghost h = boot.header@;
    let ghost cs = spec_component_sizes(h);
    let ghost so = spec_sizes_only(h);
    let entries = match component_offsets(boot) {
        Ok(es) => es,
        Err(e) => {
            return Err(e);
        },
    };
    let p = boot.get_page_size();
    let ghost gp = h.page_size() as int;
    let mut out: Vec<ExtractedComponent> = Vec::new();
    let mut i: usize = 0;
    proof {
        assert(spec_extracted_view(out@) =~= Seq::<(ComponentKind, Seq<u8>)>::empty());
    }
    while i < entries.len()
        invariant
            0 <= i <= entries@.len(),
            gp > 0,
            h == boot.header@,
            gp == h.page_size() as int,
            cs == spec_component_sizes(h),
            so == spec_sizes_only(h),
            entries@.len() == cs.len(),
            forall|j: int| 0 <= j < cs.len() ==> (#[trigger] entries@[j]).kind == cs[j].0,
            forall|j: int| 0 <= j < cs.len() ==> (#[trigger] entries@[j]).size == cs[j].1,
            forall|j: int|
                0 <= j < cs.len() ==> (#[trigger] entries@[j]).offset == spec_offset_at(so, gp, j),
            forall|j: int|
                0 <= j < i && (#[trigger] cs[j]).1 > 0 ==> spec_offset_at(so, gp, j) + cs[j].1
                    <= data@.len(),
            spec_extract_from(data@, h, 0) == spec_extracted_view(out@) + spec_extract_from(
                data@,
                h,
                i as int,
            ),
        decreases entries@.len() - i,
    {
        let e = &entries[i];
        let ghost out0 = spec_extracted_view(out@);
        if e.size > 0 {
            let off = e.offset;
            let size = e.size as u64;
            if off > data.len() as u64 || size > (data.len() as u64) - off {
                proof {
                    assert(entries@[i as int].offset == spec_offset_at(so, gp, i as int));
                    assert(entries@[i as int].size == cs[i as int].1);
                    assert(off as int == spec_offset_at(so, gp, i as int));
                    assert(off as int + size as int > data@.len());
                    assert(spec_component_sizes(h)[i as int].1 > 0);
                    assert(spec_offset_at(spec_sizes_only(h), h.page_size() as int, i as int)
                        + spec_component_sizes(h)[i as int].1 > data@.len());
                    assert(!spec_extract_ok(data@, h));
                    assert(h.page_size() > 0);
                }
                return Err(
                    AbootCrafterError::IoError(String::from_str("segment lies outside the file")),
                );
            }
            let piece = copy_range(data, off as usize, (off + size) as usize);
            out.push(ExtractedComponent { kind: e.kind, data: piece });
            proof {
                assert(spec_extracted_view(out@) =~~= out0.push(
                    (cs[i as int].0, data@.subrange(
                        spec_offset_at(so, gp, i as int),
                        spec_offset_at(so, gp, i as int) + cs[i as int].1,
                    )),
                ));
                assert(spec_extract_from(data@, h, i as int) == seq![
                    (cs[i as int].0, data@.subrange(
                        spec_offset_at(so, gp, i as int),
                        spec_offset_at(so, gp, i as int) + cs[i as int].1,
                    )),
                ] + spec_extract_from(data@, h, i as int + 1));
                assert(out0 + spec_extract_from(data@, h, i as int) =~~= spec_extracted_view(out@)
                    + spec_extract_from(data@, h, i as int + 1));
            }
        } else {
            proof {
                assert(spec_extract_from(data@, h, i as int) == spec_extract_from(
                    data@,
                    h,
                    i as int + 1,
                ));
            }
        }
        i = i + 1;
    }
    proof {
        assert(spec_extract_from(data@, h, cs.len() as int) =~= Seq::<
            (ComponentKind, Seq<u8>),
        >::empty());
        assert(spec_extracted_view(out@) + Seq::<(ComponentKind, Seq<u8>)>::empty()
            =~= spec_extracted_view(out@));
    }
    Ok(out)
}

// ---------------------------------------------------------------------------
// In-memory update with whole-file rewrite
// ---------------------------------------------------------------------------

/// The bytes of an optional replacement segment.
pub open spec fn spec_opt_view(o: Option<&[u8]>) -> Option<Seq<u8>> {
    match o {
        Some(s) => Some(s@),
        None => None,
    }
}

/// The bytes of an optional replacement text.
pub open spec fn spec_opt_str(o: Option<&str>) -> Option<Seq<u8>> {
    match o {
        Some(s) => Some(s.spec_bytes()),
        None => None,
    }
}

/// A size field after an optional replacement.
pub open spec fn spec_size_or(old: u32, repl: Option<Seq<u8>>) -> u32 {
    match repl {
        Some(d) => d.len() as u32,
        None => old,
    }
}

/// A fixed-width text field after an optional replacement.
pub open spec fn spec_field_or(old: Seq<u8>, repl: Option<Seq<u8>>, w: int) -> Seq<u8> {
    match repl {
        Some(d) => spec_fit(d, w),
        None => old,
    }
}

/// The replacement a segment kind draws from, if one was provided.
pub open spec fn spec_replacement_for(
    kind: ComponentKind,
    k: Option<Seq<u8>>,
    rd: Option<Seq<u8>>,
    s: Option<Seq<u8>>,
    d: Option<Seq<u8>>,
    t: Option<Seq<u8>>,
) -> Option<Seq<u8>> {
    match kind {
        ComponentKind::Kernel => k,
        ComponentKind::Ramdisk => rd,
        ComponentKind::Second => s,
        ComponentKind::RecoveryDtbo => d,
        ComponentKind::Dtb => t,
    }
}

/// The header after an update: each provided replacement's size recorded,
/// command lines overwritten where given, every field a version lacks
/// left untouched.
pub open spec fn spec_updated_header(
    h: HeaderView,
    k: Option<Seq<u8>>,
    rd: Option<Seq<u8>>,
    s: Option<Seq<u8>>,
    d: Option<Seq<u8>>,
    t: Option<Seq<u8>>,
    cmd: Option<Seq<u8>>,
    extra: Option<Seq<u8>>,
) -> HeaderView {
    match h {
        HeaderView::V0(v) => HeaderView::V0(
            HeaderV0View {
                kernel_size: spec_size_or(v.kernel_size, k),
                ramdisk_size: spec_size_or(v.ramdisk_size, rd),
                second_size: spec_size_or(v.second_size, s),
                cmdline: spec_field_or(v.cmdline, cmd, 512),
                extra_cmdline: spec_field_or(v.extra_cmdline, extra, 1024),
                ..v
            },
        ),
        HeaderView::V1(v) => HeaderView::V1(
            HeaderV1View {
                kernel_size: spec_size_or(v.kernel_size, k),
                ramdisk_size: spec_size_or(v.ramdisk_size, rd),
                second_size: spec_size_or(v.second_size, s),
                recovery_dtbo_size: spec_size_or(v.recovery_dtbo_size, d),
                cmdline: spec_field_or(v.cmdline, cmd, 512),
                extra_cmdline: spec_field_or(v.extra_cmdline, extra, 1024),
                ..v
            },
        ),
        HeaderView::V2(v) => HeaderView::V2(
            HeaderV2View {
                kernel_size: spec_size_or(v.kernel_size, k),
                ramdisk_size: spec_size_or(v.ramdisk_size, rd),
                second_size: spec_size_or(v.second_size, s),
                recovery_dtbo_size: spec_size_or(v.recovery_dtbo_size, d),
                dtb_size: spec_size_or(v.dtb_size, t),
                cmdline: spec_field_or(v.cmdline, cmd, 512),
                extra_cmdline: spec_field_or(v.extra_cmdline, extra, 1024),
                ..v
            },
        ),
        HeaderView::V3(v) => HeaderView::V3(
            HeaderV3View {
                kernel_size: spec_size_or(v.kernel_size, k),
                ramdisk_size: spec_size_or(v.ramdisk_size, rd),
                cmdline: spec_field_or(v.cmdline, cmd, 1536),
                ..v
            },
        ),
        HeaderView::V4(v) => HeaderView::V4(
            HeaderV4View {
                kernel_size: spec_size_or(v.kernel_size, k),
                ramdisk_size: spec_size_or(v.ramdisk_size, rd),
                cmdline: spec_field_or(v.cmdline, cmd, 1536),
                ..v
            },
        ),
    }
}

/// The segments the rebuilt file holds: each provided replacement as
/// given, every other segment read back from the old file at its old
/// offset and declared size.
pub open spec fn spec_updated_comps(
    data: Seq<u8>,
    h: HeaderView,
    k: Option<Seq<u8>>,
    rd: Option<Seq<u8>>,
    s: Option<Seq<u8>>,
    d: Option<Seq<u8>>,
    t: Option<Seq<u8>>,
) -> Seq<Seq<u8>> {
    let cs = spec_component_sizes(h);
    let so = spec_sizes_only(h);
    let p = h.page_size() as int;
    Seq::new(
        cs.len(),
        |i: int|
            match spec_replacement_for(cs[i].0, k, rd, s, d, t) {
                Some(nd) => nd,
                None => if cs[i].1 > 0 {
                    data.subrange(spec_offset_at(so, p, i), spec_offset_at(so, p, i) + cs[i].1)
                } else {
                    Seq::empty()
                },
            },
    )
}

/// Every segment kept from the old file lies inside it.
pub open spec fn spec_update_sources_ok(
    data: Seq<u8>,
    h: HeaderView,
    k: Option<Seq<u8>>,
    rd: Option<Seq<u8>>,
    s: Option<Seq<u8>>,
    d: Option<Seq<u8>>,
    t: Option<Seq<u8>>,
) -> bool {
    let cs = spec_component_sizes(h);
    let so = spec_sizes_only(h);
    let p = h.page_size() as int;
    forall|i: int|
        0 <= i < cs.len() && spec_replacement_for((#[trigger] cs[i]).0, k, rd, s, d, t) is None
            && cs[i].1 > 0 ==> spec_offset_at(so, p, i) + cs[i].1 <= data.len()
}

/// The replacement slice a segment kind draws from.
fn pick_replacement<'a>(
    kind: ComponentKind,
    k: Option<&'a [u8]>,
    rd: Option<&'a [u8]>,
    s: Option<&'a [u8]>,
    d: Option<&'a [u8]>,
    t: Option<&'a [u8]>,
) -> (r: Option<&'a [u8]>)
    ensures
        spec_opt_view(r) == spec_replacement_for(
            kind,
            spec_opt_view(k),
            spec_opt_view(rd),
            spec_opt_view(s),
            spec_opt_view(d),
            spec_opt_view(t),
        ),
{
    match kind {
        ComponentKind::Kernel => k,
        ComponentKind::Ramdisk => rd,
        ComponentKind::Second => s,
        ComponentKind::RecoveryDtbo => d,
        ComponentKind::Dtb => t,
    }
}

/// Rewrites a whole container file with the provided replacements: sizes
/// and command lines updated in the header, every segment re-laid-out at
/// its new page-aligned offset. Rebuilding the entire file keeps later
/// segments sound even when an earlier one changes page count.
pub fn update(
    data: &[u8],
    kernel: Option<&[u8]>,
    ramdisk: Option<&[u8]>,
    second: Option<&[u8]>,
    recovery_dtbo: Option<&[u8]>,
    dtb: Option<&[u8]>,
    cmdline: Option<&str>,
    extra_cmdline: Option<&str>,
) -> (r: Result<Vec<u8>, AbootCrafterError>)
    requires
        kernel matches Some(x) ==> x@.len() <= 0xFFFF_FFFF,
        ramdisk matches Some(x) ==> x@.len() <= 0xFFFF_FFFF,
        second matches Some(x) ==> x@.len() <= 0xFFFF_FFFF,
        recovery_dtbo matches Some(x) ==> x@.len() <= 0xFFFF_FFFF,
        dtb matches Some(x) ==> x@.len() <= 0xFFFF_FFFF,
    ensures
        !spec_magic_ok(data@) ==> (r matches Err(e) && e is InvalidMagic),
        spec_magic_ok(data@) && data@.len() < spec_header_len(spec_detected_version(data@)) ==> (
        r matches Err(e) && e is TruncatedHeader),
        spec_magic_ok(data@) && data@.len() >= spec_header_len(spec_detected_version(data@)) ==> {
            let h = spec_parse_header(data@);
            let kv = spec_opt_view(kernel);
            let rv = spec_opt_view(ramdisk);
            let sv = spec_opt_view(second);
            let dv = spec_opt_view(recovery_dtbo);
            let tv = spec_opt_view(dtb);
            &&& (h.page_size() as int) < h.spec_len() ==> (r matches Err(e) && e is ConfigError)
            &&& (h.page_size() as int) >= h.spec_len() && !spec_update_sources_ok(
                data@,
                h,
                kv,
                rv,
                sv,
                dv,
                tv,
            ) ==> (r matches Err(e) && e is IoError)
            &&& (h.page_size() as int) >= h.spec_len() && spec_update_sources_ok(
                data@,
                h,
                kv,
                rv,
                sv,
                dv,
                tv,
            ) ==> (r matches Ok(img) && img@ == spec_image(
                spec_encode_header(
                    spec_updated_header(
                        h,
                        kv,
                        rv,
                        sv,
                        dv,
                        tv,
                        spec_opt_str(cmdline),
                        spec_opt_str(extra_cmdline),
                    ),
                ),
                h.page_size() as int,
                spec_updated_comps(data@, h, kv, rv, sv, dv, tv),
            ))
        },
{
    let mut boot = AndroidBootFile::default();
    match boot.load(data) {
        Ok(_) => {},
        Err(e) => {
            return Err(e);
        },
    }
    let ghost h = boot.header@;
    let ghost kv = spec_opt_view(kernel);
    let ghost rv = spec_opt_view(ramdisk);
    let ghost sv = spec_opt_view(second);
    let ghost dv = spec_opt_view(recovery_dtbo);
    let ghost tv = spec_opt_view(dtb);
    let p = boot.get_page_size();
    if (p as usize) < boot.header.byte_len() {
        return Err(AbootCrafterError::ConfigError(String::from_str("page size too small")));
    }
    let ghost cs = spec_component_sizes(h);
    let ghost so = spec_sizes_only(h);
    let ghost gp = h.page_size() as int;
    let ghost newcomps = spec_updated_comps(data@, h, kv, rv, sv, dv, tv);
    let entries = match component_offsets(&boot) {
        Ok(es) => es,
        Err(e) => {
            // unreachable: the page size was already checked to be positive
            proof {
                assert(false);
            }
            return Err(e);
        },
    };
    let mut comps: Vec<Vec<u8>> = Vec::new();
    let mut i: usize = 0;
    while i < entries.len()
        invariant
            0 <= i <= entries@.len(),
            gp >= 1580,
            h == boot.header@,
            gp == h.page_size() as int,
            spec_magic_ok(data@),
            data@.len() >= spec_header_len(spec_detected_version(data@)),
            h == spec_parse_header(data@),
            h.spec_len() <= gp,
            cs == spec_component_sizes(h),
            so == spec_sizes_only(h),
            newcomps == spec_updated_comps(data@, h, kv, rv, sv, dv, tv),
            kv == spec_opt_view(kernel),
            rv == spec_opt_view(ramdisk),
            sv == spec_opt_view(second),
            dv == spec_opt_view(recovery_dtbo),
            tv == spec_opt_view(dtb),
            kernel matches Some(x) ==> x@.len() <= 0xFFFF_FFFF,
            ramdisk matches Some(x) ==> x@.len() <= 0xFFFF_FFFF,
            second matches Some(x) ==> x@.len() <= 0xFFFF_FFFF,
            recovery_dtbo matches Some(x) ==> x@.len() <= 0xFFFF_FFFF,
            dtb matches Some(x) ==> x@.len() <= 0xFFFF_FFFF,
            entries@.len() == cs.len(),
            forall|j: int| 0 <= j < cs.len() ==> (#[trigger] entries@[j]).kind == cs[j].0,
            forall|j: int| 0 <= j < cs.len() ==> (#[trigger] entries@[j]).size == cs[j].1,
            forall|j: int|
                0 <= j < cs.len() ==> (#[trigger] entries@[j]).offset == spec_offset_at(so, gp, j),
            comps@.len() == i,
            forall|j: int| 0 <= j < i ==> (#[trigger] comps@[j])@ == newcomps[j],
            forall|j: int| 0 <= j < i ==> (#[trigger] comps@[j])@.len() <= 0xFFFF_FFFF,
            forall|j: int|
                0 <= j < i && spec_replacement_for((#[trigger] cs[j]).0, kv, rv, sv, dv, tv)
                    is None && cs[j].1 > 0 ==> spec_offset_at(so, gp, j) + cs[j].1 <= data@.len(),
        decreases entries@.len() - i,
    {
        let e = &entries[i];
        proof {
            assert(entries@[i as int].kind == cs[i as int].0);
            assert(entries@[i as int].size == cs[i as int].1);
            assert(entries@[i as int].offset == spec_offset_at(so, gp, i as int));
        }
        match pick_replacement(e.kind, kernel, ramdisk, second, recovery_dtbo, dtb) {
            Some(nd) => {
                comps.push(copy_range(nd, 0, nd.len()));
                proof {
                    assert(spec_replacement_for(cs[i as int].0, kv, rv, sv, dv, tv) == Some(nd@));
                    assert(newcomps[i as int] == nd@);
                }
            },
            None => {
                if e.size > 0 {
                    let off = e.offset;
                    let size = e.size as u64;
                    if off > data.len() as u64 || size > (data.len() as u64) - off {
                        proof {
                            assert(spec_replacement_for(
                                spec_component_sizes(h)[i as int].0,
                                kv,
                                rv,
                                sv,
                                dv,
                                tv,
                            ) is None);
                            assert(spec_component_sizes(h)[i as int].1 > 0);
                            assert(spec_offset_at(
                                spec_sizes_only(h),
                                h.page_size() as int,
                                i as int,
                            ) + spec_component_sizes(h)[i as int].1 > data@.len());
                            assert(!spec_update_sources_ok(data@, h, kv, rv, sv, dv, tv));
                        }
                        return Err(
                            AbootCrafterError::IoError(
                                String::from_str("segment lies outside the file"),
                            ),
                        );
                    }
                    let piece = copy_range(data, off as usize, (off + size) as usize);
                    comps.push(piece);
                    proof {
                        assert(newcomps[i as int] == data@.subrange(
                            spec_offset_at(so, gp, i as int),
                            spec_offset_at(so, gp, i as int) + cs[i as int].1,
                        ));
                    }
                } else {
                    let piece: Vec<u8> = Vec::new();
                    comps.push(piece);
                    proof {
                        assert(spec_replacement_for(cs[i as int].0, kv, rv, sv, dv, tv) is None);
                        assert(cs[i as int].1 == 0);
                        assert(newcomps[i as int] =~= Seq::<u8>::empty());
                    }
                }
            },
        }
        i = i + 1;
    }
    proof {
        assert(spec_update_sources_ok(data@, h, kv, rv, sv, dv, tv));
    }
    // record the replacements in the header
    match &mut boot.header {
        AndroidHeader::V0(hh) => {
            if let Some(kd) = kernel {
                hh.kernel_size = kd.len() as u32;
            }
            if let Some(rd) = ramdisk {
                hh.ramdisk_size = rd.len() as u32;
            }
            if let Some(sd) = second {
                hh.second_size = sd.len() as u32;
            }
            if let Some(c) = cmdline {
                hh.cmdline = Cmdline::from_text(c);
            }
            if let Some(c) = extra_cmdline {
                hh.extra_cmdline = ExtraCmdline::from_text(c);
            }
        },
        AndroidHeader::V1(hh) => {
            if let Some(kd) = kernel {
                hh.kernel_size = kd.len() as u32;
            }
            if let Some(rd) = ramdisk {
                hh.ramdisk_size = rd.len() as u32;
            }
            if let Some(sd) = second {
                hh.second_size = sd.len() as u32;
            }
            if let Some(dd) = recovery_dtbo {
                hh.recovery_dtbo_size = dd.len() as u32;
            }
            if let Some(c) = cmdline {
                hh.cmdline = Cmdline::from_text(c);
            }
            if let Some(c) = extra_cmdline {
                hh.extra_cmdline = ExtraCmdline::from_text(c);
            }
        },
        AndroidHeader::V2(hh) => {
            if let Some(kd) = kernel {
                hh.kernel_size = kd.len() as u32;
            }
            if let Some(rd) = ramdisk {
                hh.ramdisk_size = rd.len() as u32;
            }
            if let Some(sd) = second {
                hh.second_size = sd.len() as u32;
            }
            if let Some(dd) = recovery_dtbo {
                hh.recovery_dtbo_size = dd.len() as u32;
            }
            if let Some(td) = dtb {
                hh.dtb_size = td.len() as u32;
            }
            if let Some(c) = cmdline {
                hh.cmdline = Cmdline::from_text(c);
            }
            if let Some(c) = extra_cmdline {
                hh.extra_cmdline = ExtraCmdline::from_text(c);
            }
        },
        AndroidHeader::V3(hh) => {
            if let Some(kd) = kernel {
                hh.kernel_size = kd.len() as u32;
            }
            if let Some(rd) = ramdisk {
                hh.ramdisk_size = rd.len() as u32;
            }
            if let Some(c) = cmdline {
                hh.cmdline = CmdlineExtended::from_text(c);
            }
        },
        AndroidHeader::V4(hh) => {
            if let Some(kd) = kernel {
                hh.kernel_size = kd.len() as u32;
            }
            if let Some(rd) = ramdisk {
                hh.ramdisk_size = rd.len() as u32;
            }
            if let Some(c) = cmdline {
                hh.cmdline = CmdlineExtended::from_text(c);
            }
        },
    }
    let ghost newh = spec_updated_header(
        h,
        kv,
        rv,
        sv,
        dv,
        tv,
        spec_opt_str(cmdline),
        spec_opt_str(extra_cmdline),
    );
    proof {
        assert(boot.header@ =~~= newh);
        assert(boot.header@.wf());
        assert(boot.header@.spec_len() == h.spec_len());
    }
    let hb = boot.header.encode();
    let img = build_image(hb.as_slice(), p, &comps);
    proof {
        assert(comps.deep_view() =~~= newcomps);
    }
    Ok(img)
}

} // verus!
