use vstd::prelude::*;

use crate::android::{AndroidBootFile, HeaderView};
use crate::errors::AbootCrafterError;
use vstd::arithmetic::div_mod::{
    lemma_div_is_ordered, lemma_fundamental_div_mod, lemma_mod_multiples_basic,
};
use vstd::string::StringExecFns;

verus! {

/// One payload segment of a boot image, in layout order.
#[derive(Debug, Clone, Copy, PartialEq, Eq, Structural)]
pub enum ComponentKind {
    Kernel,
    Ramdisk,
    Second,
    RecoveryDtbo,
    Dtb,
}

impl ComponentKind {
    /// The fixed file name a segment is extracted under.
    pub fn file_name(&self) -> (r: &'static str)
        ensures
            (self is Kernel) ==> r@ == "kernel"@,
            (self is Ramdisk) ==> r@ == "ramdisk"@,
            (self is Second) ==> r@ == "second"@,
            (self is RecoveryDtbo) ==> r@ == "recovery_dtbo"@,
            (self is Dtb) ==> r@ == "dtb"@,
    {
        match self {
            ComponentKind::Kernel => "kernel",
            ComponentKind::Ramdisk => "ramdisk",
            ComponentKind::Second => "second",
            ComponentKind::RecoveryDtbo => "recovery_dtbo",
            ComponentKind::Dtb => "dtb",
        }
    }
}

/// One row of the derived segment table: which segment, where it starts,
/// and how many payload bytes it declares.
#[derive(Debug, Clone, Copy, PartialEq, Eq, Structural)]
pub struct ComponentEntry {
    pub kind: ComponentKind,
    pub offset: u64,
    pub size: u32,
}

/// How many pages of size `p` the `n` bytes of a segment occupy; a
/// zero-length segment reserves no page.
pub open spec fn spec_pages(n: int, p: int) -> int
    recommends
        p > 0,
{
    (n + p - 1) / p
}

/// The ordered list of the segments a header version carries, with their
/// declared sizes.
pub open spec fn spec_component_sizes(h: HeaderView) -> Seq<(ComponentKind, u32)> {
    match h {
        HeaderView::V0(v) => seq![
            (ComponentKind::Kernel, v.kernel_size),
            (ComponentKind::Ramdisk, v.ramdisk_size),
            (ComponentKind::Second, v.second_size),
        ],
        HeaderView::V1(v) => seq![
            (ComponentKind::Kernel, v.kernel_size),
            (ComponentKind::Ramdisk, v.ramdisk_size),
            (ComponentKind::Second, v.second_size),
            (ComponentKind::RecoveryDtbo, v.recovery_dtbo_size),
        ],
        HeaderView::V2(v) => seq![
            (ComponentKind::Kernel, v.kernel_size),
            (ComponentKind::Ramdisk, v.ramdisk_size),
            (ComponentKind::Second, v.second_size),
            (ComponentKind::RecoveryDtbo, v.recovery_dtbo_size),
            (ComponentKind::Dtb, v.dtb_size),
        ],
        HeaderView::V3(v) => seq![
            (ComponentKind::Kernel, v.kernel_size),
            (ComponentKind::Ramdisk, v.ramdisk_size),
        ],
        HeaderView::V4(v) => seq![
            (ComponentKind::Kernel, v.kernel_size),
            (ComponentKind::Ramdisk, v.ramdisk_size),
        ],
    }
}

/// Just the sizes of the segment list.
pub open spec fn spec_sizes_only(h: HeaderView) -> Seq<u32> {
    spec_component_sizes(h).map_values(|t: (ComponentKind, u32)| t.1)
}

/// The byte offset of segment `i`: one page for the header, then every
/// earlier segment rounded up to whole pages.
pub open spec fn spec_offset_at(sizes: Seq<u32>, p: int, i: int) -> int
    recommends
        p > 0,
        0 <= i <= sizes.len(),
    decreases i,
{
    if i <= 0 {
        p
    } else {
        spec_offset_at(sizes, p, i - 1) + p * spec_pages(sizes[i - 1] as int, p)
    }
}

/// The pages before segment `i`: one for the header plus every earlier
/// segment's page count.
pub open spec fn spec_pages_before(sizes: Seq<u32>, p: int, i: int) -> int
    recommends
        p > 0,
        0 <= i <= sizes.len(),
    decreases i,
{
    if i <= 0 {
        1
    } else {
        spec_pages_before(sizes, p, i - 1) + spec_pages(sizes[i - 1] as int, p)
    }
}

/// A segment's page-rounded extent covers at least its declared bytes.
pub proof fn lemma_pages_cover(n: int, p: int)
    requires
        p > 0,
        n >= 0,
    ensures
        spec_pages(n, p) >= 0,
        p * spec_pages(n, p) >= n,
        p * spec_pages(n, p) <= n + p - 1,
{
    let q = spec_pages(n, p);
    lemma_fundamental_div_mod(n + p - 1, p);
    let r = (n + p - 1) % p;
    assert(n + p - 1 == p * q + r);
    assert(0 <= r < p);
    if n > 0 {
        assert(q >= 0) by {
            lemma_div_is_ordered(0, n + p - 1, p);
        }
    } else {
        assert(n == 0);
        assert(q == (p - 1) / p);
        lemma_div_is_ordered(0, p - 1, p);
    }
}

/// Offsets are exactly whole pages: the page count times the page size.
pub proof fn lemma_offset_is_pages(sizes: Seq<u32>, p: int, i: int)
    requires
        p > 0,
        0 <= i <= sizes.len(),
    ensures
        spec_offset_at(sizes, p, i) == p * spec_pages_before(sizes, p, i),
    decreases i,
{
    if i > 0 {
        lemma_offset_is_pages(sizes, p, i - 1);
        assert(p * (spec_pages_before(sizes, p, i - 1) + spec_pages(sizes[i - 1] as int, p)) == p
            * spec_pages_before(sizes, p, i - 1) + p * spec_pages(sizes[i - 1] as int, p))
            by (nonlinear_arith);
    }
}

/// The derived segment table is sound: every offset is page-aligned, the
/// first segment starts after the header page, and in layout order each
/// segment's declared bytes end at or before the next segment's offset.
pub proof fn lemma_offsets_sound(sizes: Seq<u32>, p: int, i: int)
    requires
        p > 0,
        0 <= i <= sizes.len(),
    ensures
        spec_offset_at(sizes, p, i) % p == 0,
        spec_offset_at(sizes, p, i) >= p,
        i < sizes.len() ==> spec_offset_at(sizes, p, i) + sizes[i] <= spec_offset_at(
            sizes,
            p,
            i + 1,
        ),
    decreases i,
{
    lemma_offset_is_pages(sizes, p, i);
    let k = spec_pages_before(sizes, p, i);
    assert(k >= 1) by {
        lemma_pages_before_ge_one(sizes, p, i);
    }
    assert(p * k == k * p) by (nonlinear_arith);
    assert((p * k) % p == 0) by {
        lemma_mod_multiples_basic(k, p);
    }
    assert(p * k >= p * 1) by (nonlinear_arith)
        requires
            p > 0,
            k >= 1,
    ;
    if i < sizes.len() {
        lemma_pages_cover(sizes[i] as int, p);
        assert(spec_offset_at(sizes, p, i + 1) == spec_offset_at(sizes, p, i) + p * spec_pages(
            sizes[i] as int,
            p,
        ));
    }
}

proof fn lemma_pages_before_ge_one(sizes: Seq<u32>, p: int, i: int)
    requires
        p > 0,
        0 <= i <= sizes.len(),
    ensures
        spec_pages_before(sizes, p, i) >= 1,
    decreases i,
{
    if i > 0 {
        lemma_pages_before_ge_one(sizes, p, i - 1);
        lemma_pages_cover(sizes[i - 1] as int, p);
    }
}

/// Every offset in the table fits comfortably below `2^36`.
pub proof fn lemma_offset_bound(sizes: Seq<u32>, p: int, i: int)
    requires
        p > 0,
        p <= 0xFFFF_FFFF,
        0 <= i <= sizes.len(),
    ensures
        spec_offset_at(sizes, p, i) <= 0x1_0000_0000 * (1 + 2 * i),
    decreases i,
{
    if i > 0 {
        lemma_offset_bound(sizes, p, i - 1);
        lemma_pages_cover(sizes[i - 1] as int, p);
    }
}

/// How many pages a segment of `n` bytes occupies.
pub fn pages(n: u32, page_size: u32) -> (r: u32)
    requires
        page_size > 0,
    ensures
        r == spec_pages(n as int, page_size as int),
{
    let q: u64 = ((n as u64) + (page_size as u64) - 1) / (page_size as u64);
    proof {
        lemma_pages_cover(n as int, page_size as int);
        assert(spec_pages(n as int, page_size as int) <= n || n == 0) by {
            if n > 0 {
                let p = page_size as int;
                let nn = n as int;
                assert(nn + p - 1 <= nn * p) by (nonlinear_arith)
                    requires
                        nn >= 1,
                        p >= 1,
                ;
                lemma_div_is_ordered(nn + p - 1, nn * p, p);
                vstd::arithmetic::div_mod::lemma_div_multiples_vanish(nn, p);
            }
        }
    }
    q as u32
}

/// The ordered segment list of the loaded header, with declared sizes.
pub fn component_sizes(boot: &AndroidBootFile) -> (r: Vec<(ComponentKind, u32)>)
    ensures
        r@ == spec_component_sizes(boot.header@),
{
    let mut out: Vec<(ComponentKind, u32)> = Vec::new();
    out.push((ComponentKind::Kernel, boot.get_kernel_size()));
    out.push((ComponentKind::Ramdisk, boot.get_ramdisk_size()));
    match boot.get_second_size() {
        Some(s) => {
            out.push((ComponentKind::Second, s));
        },
        None => {},
    }
    match &boot.header {
        crate::android::AndroidHeader::V1(h) => {
            out.push((ComponentKind::RecoveryDtbo, h.recovery_dtbo_size));
        },
        crate::android::AndroidHeader::V2(h) => {
            out.push((ComponentKind::RecoveryDtbo, h.recovery_dtbo_size));
            out.push((ComponentKind::Dtb, h.dtb_size));
        },
        _ => {},
    }
    proof {
        assert(out@ =~= spec_component_sizes(boot.header@));
    }
    out
}

/// The derived segment table: for each segment its page-aligned offset
/// and declared size, in layout order. A page size of zero is rejected
/// before any offset arithmetic.
pub fn component_offsets(boot: &AndroidBootFile) -> (r: Result<
    Vec<ComponentEntry>,
    AbootCrafterError,
>)
    ensures
        boot.header@.page_size() == 0 <==> (r matches Err(e) && e is ConfigError),
        boot.header@.page_size() > 0 ==> (r matches Ok(es) && {
            let sizes = spec_sizes_only(boot.header@);
            let p = boot.header@.page_size() as int;
            &&& es@.len() == sizes.len()
            &&& forall|i: int|
                0 <= i < es@.len() ==> (#[trigger] es@[i]).kind == spec_component_sizes(
                    boot.header@,
                )[i].0
            &&& forall|i: int|
                0 <= i < es@.len() ==> (#[trigger] es@[i]).size == sizes[i]
            &&& forall|i: int|
                0 <= i < es@.len() ==> (#[trigger] es@[i]).offset == spec_offset_at(sizes, p, i)
        }),
{
    let p = boot.get_page_size();
    if p == 0 {
        return Err(AbootCrafterError::ConfigError(String::from_str("page size is zero")));
    }
    let sizes = component_sizes(boot);
    let ghost gsizes = spec_sizes_only(boot.header@);
    proof {
        assert(gsizes.len() == sizes@.len());
    }
    let mut out: Vec<ComponentEntry> = Vec::new();
    let mut off: u64 = p as u64;
    let mut i: usize = 0;
    while i < sizes.len()
        invariant
            0 <= i <= sizes@.len(),
            sizes@.len() <= 5,
            p > 0,
            gsizes.len() == sizes@.len(),
            forall|j: int| 0 <= j < sizes@.len() ==> gsizes[j] == (#[trigger] sizes@[j]).1,
            off == spec_offset_at(gsizes, p as int, i as int),
            out@.len() == i,
            forall|j: int| 0 <= j < i ==> (#[trigger] out@[j]).kind == sizes@[j].0,
            forall|j: int| 0 <= j < i ==> (#[trigger] out@[j]).size == sizes@[j].1,
            forall|j: int|
                0 <= j < i ==> (#[trigger] out@[j]).offset == spec_offset_at(
                    gsizes,
                    p as int,
                    j,
                ),
        decreases sizes@.len() - i,
    {
        let (kind, size) = sizes[i];
        out.push(ComponentEntry { kind, offset: off, size });
        let pg = pages(size, p);
        proof {
            lemma_offset_bound(gsizes, p as int, i as int);
            lemma_pages_cover(size as int, p as int);
            assert((p as int) * (pg as int) <= size + p - 1);
        }
        off = off + (p as u64) * (pg as u64);
        i = i + 1;
    }
    Ok(out)
}

} // verus!
