use vstd::prelude::*;

use crate::android::spec_magic_ok;
use crate::errors::AbootCrafterError;
use crate::types::{BootImgHeader, BootImgHeaderView};
use vstd::bytes::{spec_u32_from_le_bytes, spec_u32_to_le_bytes, u32_from_le_bytes, u32_to_le_bytes};

verus! {

/// The exact encoding of the flat header: 608 bytes, integers
/// little-endian, with two reserved zero words after the page size.
pub open spec fn spec_encode_bootimg(h: BootImgHeaderView) -> Seq<u8> {
    h.magic + spec_u32_to_le_bytes(h.kernel_size) + spec_u32_to_le_bytes(h.kernel_addr)
        + spec_u32_to_le_bytes(h.ramdisk_size) + spec_u32_to_le_bytes(h.ramdisk_addr)
        + spec_u32_to_le_bytes(h.second_size) + spec_u32_to_le_bytes(h.second_addr)
        + spec_u32_to_le_bytes(h.tags_addr) + spec_u32_to_le_bytes(h.page_size)
        + spec_u32_to_le_bytes(0) + spec_u32_to_le_bytes(0) + h.name + h.cmdline
        + spec_u32_to_le_bytes(h.id[0]) + spec_u32_to_le_bytes(h.id[1]) + spec_u32_to_le_bytes(
        h.id[2],
    ) + spec_u32_to_le_bytes(h.id[3]) + spec_u32_to_le_bytes(h.id[4]) + spec_u32_to_le_bytes(
        h.id[5],
    ) + spec_u32_to_le_bytes(h.id[6]) + spec_u32_to_le_bytes(h.id[7])
}

/// The flat header read from the first 608 bytes of `b`.
pub open spec fn spec_parse_bootimg(b: Seq<u8>) -> BootImgHeaderView
    recommends
        b.len() >= 608,
{
    BootImgHeaderView {
        magic: b.subrange(0, 8),
        kernel_size: spec_u32_from_le_bytes(b.subrange(8, 12)),
        kernel_addr: spec_u32_from_le_bytes(b.subrange(12, 16)),
        ramdisk_size: spec_u32_from_le_bytes(b.subrange(16, 20)),
        ramdisk_addr: spec_u32_from_le_bytes(b.subrange(20, 24)),
        second_size: spec_u32_from_le_bytes(b.subrange(24, 28)),
        second_addr: spec_u32_from_le_bytes(b.subrange(28, 32)),
        tags_addr: spec_u32_from_le_bytes(b.subrange(32, 36)),
        page_size: spec_u32_from_le_bytes(b.subrange(36, 40)),
        name: b.subrange(48, 64),
        cmdline: b.subrange(64, 576),
        id: seq![
            spec_u32_from_le_bytes(b.subrange(576, 580)),
            spec_u32_from_le_bytes(b.subrange(580, 584)),
            spec_u32_from_le_bytes(b.subrange(584, 588)),
            spec_u32_from_le_bytes(b.subrange(588, 592)),
            spec_u32_from_le_bytes(b.subrange(592, 596)),
            spec_u32_from_le_bytes(b.subrange(596, 600)),
            spec_u32_from_le_bytes(b.subrange(600, 604)),
            spec_u32_from_le_bytes(b.subrange(604, 608)),
        ],
    }
}

fn fill8(b: &[u8], from: usize) -> (r: [u8; 8])
    requires
        from + 8 <= b@.len(),
    ensures
        r@ =~= b@.subrange(from as int, from as int + 8),
{
    let mut a = [0u8; 8];
    let blen = b.len();
    let mut i: usize = 0;
    while i < 8
        invariant
            0 <= i <= 8,
            from + 8 <= blen,
            blen == b@.len(),
            a@.len() == 8,
            forall|j: int| 0 <= j < i ==> a@[j] == b@[from + j],
        decreases 8 - i,
    {
        a[i] = b[from + i];
        i = i + 1;
    }
    a
}

fn fill16(b: &[u8], from: usize) -> (r: [u8; 16])
    requires
        from + 16 <= b@.len(),
    ensures
        r@ =~= b@.subrange(from as int, from as int + 16),
{
    let mut a = [0u8; 16];
    let blen = b.len();
    let mut i: usize = 0;
    while i < 16
        invariant
            0 <= i <= 16,
            from + 16 <= blen,
            blen == b@.len(),
            a@.len() == 16,
            forall|j: int| 0 <= j < i ==> a@[j] == b@[from + j],
        decreases 16 - i,
    {
        a[i] = b[from + i];
        i = i + 1;
    }
    a
}

fn fill512(b: &[u8], from: usize) -> (r: [u8; 512])
    requires
        from + 512 <= b@.len(),
    ensures
        r@ =~= b@.subrange(from as int, from as int + 512),
{
    let mut a = [0u8; 512];
    let blen = b.len();
    let mut i: usize = 0;
    while i < 512
        invariant
            0 <= i <= 512,
            from + 512 <= blen,
            blen == b@.len(),
            a@.len() == 512,
            forall|j: int| 0 <= j < i ==> a@[j] == b@[from + j],
        decreases 512 - i,
    {
        a[i] = b[from + i];
        i = i + 1;
    }
    a
}

/// Reads a flat header from the opening bytes of a container file,
/// demanding the magic before anything else is interpreted.
pub fn read_header(bytes: &[u8]) -> (r: Result<BootImgHeader, AbootCrafterError>)
    ensures
        bytes@.len() < 8 ==> (r matches Err(e) && e is TruncatedHeader),
        bytes@.len() >= 8 && !spec_magic_ok(bytes@) ==> (r matches Err(e) && e is InvalidMagic),
        spec_magic_ok(bytes@) && bytes@.len() < 608 ==> (r matches Err(e) && e is TruncatedHeader),
        spec_magic_ok(bytes@) && bytes@.len() >= 608 ==> (r matches Ok(h) && h@
            == spec_parse_bootimg(bytes@)),
{
    if bytes.len() < 8 {
        return Err(AbootCrafterError::TruncatedHeader);
    }
    if !crate::android::check_magic(bytes) {
        return Err(AbootCrafterError::InvalidMagic);
    }
    if bytes.len() < 608 {
        return Err(AbootCrafterError::TruncatedHeader);
    }
    let id = [
        u32_from_le_bytes(&bytes[576..580]),
        u32_from_le_bytes(&bytes[580..584]),
        u32_from_le_bytes(&bytes[584..588]),
        u32_from_le_bytes(&bytes[588..592]),
        u32_from_le_bytes(&bytes[592..596]),
        u32_from_le_bytes(&bytes[596..600]),
        u32_from_le_bytes(&bytes[600..604]),
        u32_from_le_bytes(&bytes[604..608]),
    ];
    let h = BootImgHeader {
        magic: fill8(bytes, 0),
        kernel_size: u32_from_le_bytes(&bytes[8..12]),
        kernel_addr: u32_from_le_bytes(&bytes[12..16]),
        ramdisk_size: u32_from_le_bytes(&bytes[16..20]),
        ramdisk_addr: u32_from_le_bytes(&bytes[20..24]),
        second_size: u32_from_le_bytes(&bytes[24..28]),
        second_addr: u32_from_le_bytes(&bytes[28..32]),
        tags_addr: u32_from_le_bytes(&bytes[32..36]),
        page_size: u32_from_le_bytes(&bytes[36..40]),
        name: fill16(bytes, 48),
        cmdline: fill512(bytes, 64),
        id,
    };
    proof {
        assert(h@.id =~= spec_parse_bootimg(bytes@).id);
        assert(h@ =~= spec_parse_bootimg(bytes@));
    }
    Ok(h)
}

/// Serializes a flat header into its exact 608-byte layout.
pub fn write_header(header: &BootImgHeader) -> (r: Vec<u8>)
    ensures
        r@ == spec_encode_bootimg(header@),
        r@.len() == 608,
{
    let mut out: Vec<u8> = Vec::new();
    crate::bytesutil::push_bytes(&mut out, header.magic.as_slice());
    let mut t = u32_to_le_bytes(header.kernel_size);
    out.append(&mut t);
    let mut t = u32_to_le_bytes(header.kernel_addr);
    out.append(&mut t);
    let mut t = u32_to_le_bytes(header.ramdisk_size);
    out.append(&mut t);
    let mut t = u32_to_le_bytes(header.ramdisk_addr);
    out.append(&mut t);
    let mut t = u32_to_le_bytes(header.second_size);
    out.append(&mut t);
    let mut t = u32_to_le_bytes(header.second_addr);
    out.append(&mut t);
    let mut t = u32_to_le_bytes(header.tags_addr);
    out.append(&mut t);
    let mut t = u32_to_le_bytes(header.page_size);
    out.append(&mut t);
    let mut t = u32_to_le_bytes(0);
    out.append(&mut t);
    let mut t = u32_to_le_bytes(0);
    out.append(&mut t);
    crate::bytesutil::push_bytes(&mut out, header.name.as_slice());
    crate::bytesutil::push_bytes(&mut out, header.cmdline.as_slice());
    let mut i: usize = 0;
    let ghost mid = out@;
    while i < 8
        invariant
            0 <= i <= 8,
            out@.len() == mid.len() + 4 * i,
            out@ =~= mid + spec_id_prefix(header@.id, i as int),
            header@.id.len() == 8,
        decreases 8 - i,
    {
        let ghost before = out@;
        let w = header.id[i];
        let mut t = u32_to_le_bytes(w);
        out.append(&mut t);
        proof {
            assert(w == header@.id[i as int]);
            assert(spec_id_prefix(header@.id, i as int + 1) =~= spec_id_prefix(
                header@.id,
                i as int,
            ) + spec_u32_to_le_bytes(header@.id[i as int]));
            assert(out@ =~= mid + spec_id_prefix(header@.id, i as int + 1));
        }
        i = i + 1;
    }
    proof {
        reveal_with_fuel(spec_id_prefix, 9);
        assert(out@ =~= spec_encode_bootimg(header@));
    }
    out
}

/// The first `i` id words, encoded.
pub open spec fn spec_id_prefix(id: Seq<u32>, i: int) -> Seq<u8>
    decreases i,
{
    if i <= 0 {
        Seq::empty()
    } else {
        spec_id_prefix(id, i - 1) + spec_u32_to_le_bytes(id[i - 1])
    }
}

} // verus!

use vstd::bytes::lemma_auto_spec_u32_to_from_le_bytes;

verus! {

/// Decoding an encoded flat header gives back every field.
#[verifier::rlimit(60)]
pub proof fn lemma_bootimg_round_trip(h: BootImgHeaderView)
    requires
        h.magic.len() == 8,
        h.name.len() == 16,
        h.cmdline.len() == 512,
        h.id.len() == 8,
    ensures
        spec_encode_bootimg(h).len() == 608,
        spec_parse_bootimg(spec_encode_bootimg(h)) == h,
{
    lemma_auto_spec_u32_to_from_le_bytes();
    let b = spec_encode_bootimg(h);
    assert(b.subrange(0, 8) =~= h.magic);
    assert(b.subrange(8, 12) =~= spec_u32_to_le_bytes(h.kernel_size));
    assert(b.subrange(12, 16) =~= spec_u32_to_le_bytes(h.kernel_addr));
    assert(b.subrange(16, 20) =~= spec_u32_to_le_bytes(h.ramdisk_size));
    assert(b.subrange(20, 24) =~= spec_u32_to_le_bytes(h.ramdisk_addr));
    assert(b.subrange(24, 28) =~= spec_u32_to_le_bytes(h.second_size));
    assert(b.subrange(28, 32) =~= spec_u32_to_le_bytes(h.second_addr));
    assert(b.subrange(32, 36) =~= spec_u32_to_le_bytes(h.tags_addr));
    assert(b.subrange(36, 40) =~= spec_u32_to_le_bytes(h.page_size));
    assert(b.subrange(48, 64) =~= h.name);
    assert(b.subrange(64, 576) =~= h.cmdline);
    assert(b.subrange(576, 580) =~= spec_u32_to_le_bytes(h.id[0]));
    assert(b.subrange(580, 584) =~= spec_u32_to_le_bytes(h.id[1]));
    assert(b.subrange(584, 588) =~= spec_u32_to_le_bytes(h.id[2]));
    assert(b.subrange(588, 592) =~= spec_u32_to_le_bytes(h.id[3]));
    assert(b.subrange(592, 596) =~= spec_u32_to_le_bytes(h.id[4]));
    assert(b.subrange(596, 600) =~= spec_u32_to_le_bytes(h.id[5]));
    assert(b.subrange(600, 604) =~= spec_u32_to_le_bytes(h.id[6]));
    assert(b.subrange(604, 608) =~= spec_u32_to_le_bytes(h.id[7]));
    assert(spec_parse_bootimg(b).id =~= h.id);
    assert(spec_parse_bootimg(b) =~= h);
}

} // verus!
