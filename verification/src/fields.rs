use vstd::prelude::*;

use crate::bytesutil::{
    ascii_bytes_to_string, ascii_chars, fit_bytes, lemma_filter_ascii_bounds, spec_fit,
    spec_text_of, spec_zeros, text_of_bytes, zero_vec,
};
use crate::parse::{
    parse_u32_dec, parse_u32_hex, parse_u64_dec, parse_u64_hex, render_hex, render_u32_dec,
    render_u32_dec_pad2, spec_dec_render, spec_dec_render_pad2, spec_hex_render,
    spec_parse_u32_dec, spec_parse_u32_hex, spec_parse_u64_dec, spec_parse_u64_hex,
    all_dec_digits, dec_val, is_dec_digit, lemma_dec_render_val,
};
use vstd::bytes::{
    spec_u32_from_le_bytes, spec_u32_to_le_bytes, spec_u64_from_le_bytes, spec_u64_to_le_bytes,
    u32_from_le_bytes, u32_to_le_bytes, u64_from_le_bytes, u64_to_le_bytes,
    lemma_auto_spec_u32_to_from_le_bytes, lemma_auto_spec_u64_to_from_le_bytes,
};
use vstd::string::StringSliceAdditionalSpecFns;

verus! {

// ---------------------------------------------------------------------------
// Fixed-width text fields
// ---------------------------------------------------------------------------

/// The eight magic bytes at the start of every boot image.
#[derive(Debug, Clone)]
pub struct AndroidBootMagic(pub Vec<u8>);

/// The sixteen-byte product-name field.
#[derive(Debug, Clone)]
pub struct Name(pub Vec<u8>);

/// The 512-byte kernel command-line field of headers 0 to 2.
#[derive(Debug, Clone)]
pub struct Cmdline(pub Vec<u8>);

/// The 1024-byte extra command-line field of headers 0 to 2.
#[derive(Debug, Clone)]
pub struct ExtraCmdline(pub Vec<u8>);

/// The 1536-byte command-line field of headers 3 and 4.
#[derive(Debug, Clone)]
pub struct CmdlineExtended(pub Vec<u8>);

/// The eight-byte id field.
#[derive(Debug, Clone)]
pub struct Id(pub Vec<u8>);

impl AndroidBootMagic {
    pub open spec fn wf(&self) -> bool {
        self.0@.len() == 8
    }

    /// Truncates or NUL-pads the text to the field's eight bytes.
    pub fn from_text(s: &str) -> (r: Self)
        ensures
            r.0@ == spec_fit(s.spec_bytes(), 8),
            r.wf(),
    {
        AndroidBootMagic(fit_bytes(s.as_bytes(), 8))
    }

    /// The field's bytes with trailing NULs and non-ASCII bytes removed.
    pub fn display_string(&self) -> (r: String)
        ensures
            r@ == ascii_chars(spec_text_of(self.0@)),
    {
        let t = text_of_bytes(self.0.as_slice());
        proof {
            lemma_filter_ascii_bounds(crate::bytesutil::spec_strip_trailing_nuls(self.0@));
        }
        ascii_bytes_to_string(t)
    }
}

impl Default for AndroidBootMagic {
    /// The magic defaults to the ASCII text `ANDROID!`.
    fn default() -> (r: Self)
        ensures
            r.0@ == crate::spec_boot_magic(),
            r.wf(),
    {
        AndroidBootMagic(crate::boot_magic_bytes())
    }
}

impl Name {
    pub open spec fn wf(&self) -> bool {
        self.0@.len() == 16
    }

    /// Truncates or NUL-pads the text to the field's sixteen bytes.
    pub fn from_text(s: &str) -> (r: Self)
        ensures
            r.0@ == spec_fit(s.spec_bytes(), 16),
            r.wf(),
    {
        Name(fit_bytes(s.as_bytes(), 16))
    }

    /// The field's bytes with trailing NULs and non-ASCII bytes removed.
    pub fn display_string(&self) -> (r: String)
        ensures
            r@ == ascii_chars(spec_text_of(self.0@)),
    {
        let t = text_of_bytes(self.0.as_slice());
        proof {
            lemma_filter_ascii_bounds(crate::bytesutil::spec_strip_trailing_nuls(self.0@));
        }
        ascii_bytes_to_string(t)
    }
}

impl Default for Name {
    fn default() -> (r: Self)
        ensures
            r.0@ == spec_zeros(16),
            r.wf(),
    {
        Name(zero_vec(16))
    }
}

impl Cmdline {
    pub open spec fn wf(&self) -> bool {
        self.0@.len() == 512
    }

    /// Truncates or NUL-pads the text to the field's 512 bytes.
    pub fn from_text(s: &str) -> (r: Self)
        ensures
            r.0@ == spec_fit(s.spec_bytes(), 512),
            r.wf(),
    {
        Cmdline(fit_bytes(s.as_bytes(), 512))
    }

    /// The field's bytes with trailing NULs and non-ASCII bytes removed.
    pub fn display_string(&self) -> (r: String)
        ensures
            r@ == ascii_chars(spec_text_of(self.0@)),
    {
        let t = text_of_bytes(self.0.as_slice());
        proof {
            lemma_filter_ascii_bounds(crate::bytesutil::spec_strip_trailing_nuls(self.0@));
        }
        ascii_bytes_to_string(t)
    }
}

impl Default for Cmdline {
    fn default() -> (r: Self)
        ensures
            r.0@ == spec_zeros(512),
            r.wf(),
    {
        Cmdline(zero_vec(512))
    }
}

impl ExtraCmdline {
    pub open spec fn wf(&self) -> bool {
        self.0@.len() == 1024
    }

    /// Truncates or NUL-pads the text to the field's 1024 bytes.
    pub fn from_text(s: &str) -> (r: Self)
        ensures
            r.0@ == spec_fit(s.spec_bytes(), 1024),
            r.wf(),
    {
        ExtraCmdline(fit_bytes(s.as_bytes(), 1024))
    }

    /// The field's bytes with trailing NULs and non-ASCII bytes removed.
    pub fn display_string(&self) -> (r: String)
        ensures
            r@ == ascii_chars(spec_text_of(self.0@)),
    {
        let t = text_of_bytes(self.0.as_slice());
        proof {
            lemma_filter_ascii_bounds(crate::bytesutil::spec_strip_trailing_nuls(self.0@));
        }
        ascii_bytes_to_string(t)
    }
}

impl Default for ExtraCmdline {
    fn default() -> (r: Self)
        ensures
            r.0@ == spec_zeros(1024),
            r.wf(),
    {
        ExtraCmdline(zero_vec(1024))
    }
}

impl CmdlineExtended {
    pub open spec fn wf(&self) -> bool {
        self.0@.len() == 1536
    }

    /// Truncates or NUL-pads the text to the field's 1536 bytes.
    pub fn from_text(s: &str) -> (r: Self)
        ensures
            r.0@ == spec_fit(s.spec_bytes(), 1536),
            r.wf(),
    {
        CmdlineExtended(fit_bytes(s.as_bytes(), 1536))
    }

    /// The field's bytes with trailing NULs and non-ASCII bytes removed.
    pub fn display_string(&self) -> (r: String)
        ensures
            r@ == ascii_chars(spec_text_of(self.0@)),
    {
        let t = text_of_bytes(self.0.as_slice());
        proof {
            lemma_filter_ascii_bounds(crate::bytesutil::spec_strip_trailing_nuls(self.0@));
        }
        ascii_bytes_to_string(t)
    }
}

impl Default for CmdlineExtended {
    fn default() -> (r: Self)
        ensures
            r.0@ == spec_zeros(1536),
            r.wf(),
    {
        CmdlineExtended(zero_vec(1536))
    }
}

impl Id {
    pub open spec fn wf(&self) -> bool {
        self.0@.len() == 8
    }

    /// Truncates or NUL-pads the text to the field's eight bytes.
    pub fn from_text(s: &str) -> (r: Self)
        ensures
            r.0@ == spec_fit(s.spec_bytes(), 8),
            r.wf(),
    {
        Id(fit_bytes(s.as_bytes(), 8))
    }

    /// The field's bytes with trailing NULs and non-ASCII bytes removed.
    pub fn display_string(&self) -> (r: String)
        ensures
            r@ == ascii_chars(spec_text_of(self.0@)),
    {
        let t = text_of_bytes(self.0.as_slice());
        proof {
            lemma_filter_ascii_bounds(crate::bytesutil::spec_strip_trailing_nuls(self.0@));
        }
        ascii_bytes_to_string(t)
    }
}

impl Default for Id {
    fn default() -> (r: Self)
        ensures
            r.0@ == spec_zeros(8),
            r.wf(),
    {
        Id(zero_vec(8))
    }
}

// ---------------------------------------------------------------------------
// Address fields
// ---------------------------------------------------------------------------

/// What an address text parses to: `0x`-prefixed hexadecimal, else decimal,
/// and zero whenever neither form fits the target width.
pub open spec fn spec_addr32_of_text(s: Seq<u8>) -> u32 {
    if s.len() >= 2 && s[0] == 0x30 && s[1] == 0x78 {
        match spec_parse_u32_hex(s.skip(2)) {
            Some(v) => v,
            None => 0,
        }
    } else {
        match spec_parse_u32_dec(s) {
            Some(v) => v,
            None => 0,
        }
    }
}

pub open spec fn spec_addr64_of_text(s: Seq<u8>) -> u64 {
    if s.len() >= 2 && s[0] == 0x30 && s[1] == 0x78 {
        match spec_parse_u64_hex(s.skip(2)) {
            Some(v) => v,
            None => 0,
        }
    } else {
        match spec_parse_u64_dec(s) {
            Some(v) => v,
            None => 0,
        }
    }
}

/// A 32-bit little-endian load address stored as four raw bytes.
#[derive(Debug, Clone)]
pub struct AddressU32(pub Vec<u8>);

impl AddressU32 {
    pub open spec fn wf(&self) -> bool {
        self.0@.len() == 4
    }

    /// The address value the four stored bytes denote.
    pub open spec fn spec_value(&self) -> u32 {
        spec_u32_from_le_bytes(self.0@)
    }

    pub fn value(&self) -> (r: u32)
        requires
            self.wf(),
        ensures
            r == self.spec_value(),
    {
        u32_from_le_bytes(self.0.as_slice())
    }

    /// Parses `0x`-prefixed hexadecimal or plain decimal text; anything
    /// else, including an overflowing value, becomes address zero.
    pub fn from_text(s: &str) -> (r: Self)
        ensures
            r.0@ == spec_u32_to_le_bytes(spec_addr32_of_text(s.spec_bytes())),
            r.wf(),
    {
        let b = s.as_bytes();
        let v: u32;
        if b.len() >= 2 && b[0] == 0x30 && b[1] == 0x78 {
            let rest = crate::bytesutil::copy_range(b, 2, b.len());
            assert(rest@ =~= s.spec_bytes().skip(2));
            v = match parse_u32_hex(rest.as_slice()) {
                Some(x) => x,
                None => 0,
            };
        } else {
            v = match parse_u32_dec(b) {
                Some(x) => x,
                None => 0,
            };
        }
        proof {
            lemma_auto_spec_u32_to_from_le_bytes();
        }
        AddressU32(u32_to_le_bytes(v))
    }

    /// `0x` followed by exactly eight lower-case hexadecimal digits.
    pub fn display_string(&self) -> (r: String)
        requires
            self.wf(),
        ensures
            r@ == ascii_chars(seq![0x30u8, 0x78u8] + spec_hex_render(self.spec_value() as nat, 8)),
    {
        let v = u32_from_le_bytes(self.0.as_slice());
        let mut out: Vec<u8> = Vec::new();
        out.push(0x30);
        out.push(0x78);
        let mut digits = render_hex(v as u64, 8);
        out.append(&mut digits);
        proof {
            assert(out@ =~= seq![0x30u8, 0x78u8] + spec_hex_render(self.spec_value() as nat, 8));
            crate::parse::lemma_hex_render_bounds(self.spec_value() as nat, 8);
        }
        ascii_bytes_to_string(out)
    }
}

impl Default for AddressU32 {
    fn default() -> (r: Self)
        ensures
            r.0@ == spec_zeros(4),
            r.wf(),
    {
        AddressU32(zero_vec(4))
    }
}

/// A 64-bit little-endian offset or address stored as eight raw bytes.
#[derive(Debug, Clone)]
pub struct AddressU64(pub Vec<u8>);

impl AddressU64 {
    pub open spec fn wf(&self) -> bool {
        self.0@.len() == 8
    }

    /// The value the stored bytes denote; zero when the field does not
    /// hold exactly eight bytes.
    pub open spec fn spec_value(&self) -> u64 {
        if self.0@.len() == 8 {
            spec_u64_from_le_bytes(self.0@)
        } else {
            0
        }
    }

    pub fn value(&self) -> (r: u64)
        ensures
            r == self.spec_value(),
    {
        if self.0.len() == 8 {
            u64_from_le_bytes(self.0.as_slice())
        } else {
            0
        }
    }

    /// Parses `0x`-prefixed hexadecimal or plain decimal text; anything
    /// else, including an overflowing value, becomes address zero.
    pub fn from_text(s: &str) -> (r: Self)
        ensures
            r.0@ == spec_u64_to_le_bytes(spec_addr64_of_text(s.spec_bytes())),
            r.wf(),
    {
        let b = s.as_bytes();
        let v: u64;
        if b.len() >= 2 && b[0] == 0x30 && b[1] == 0x78 {
            let rest = crate::bytesutil::copy_range(b, 2, b.len());
            assert(rest@ =~= s.spec_bytes().skip(2));
            v = match parse_u64_hex(rest.as_slice()) {
                Some(x) => x,
                None => 0,
            };
        } else {
            v = match parse_u64_dec(b) {
                Some(x) => x,
                None => 0,
            };
        }
        proof {
            lemma_auto_spec_u64_to_from_le_bytes();
        }
        AddressU64(u64_to_le_bytes(v))
    }

    /// `0x` followed by exactly sixteen lower-case hexadecimal digits.
    pub fn display_string(&self) -> (r: String)
        ensures
            r@ == ascii_chars(
                seq![0x30u8, 0x78u8] + spec_hex_render(self.spec_value() as nat, 16),
            ),
    {
        let v = self.value();
        let mut out: Vec<u8> = Vec::new();
        out.push(0x30);
        out.push(0x78);
        let mut digits = render_hex(v, 16);
        out.append(&mut digits);
        proof {
            assert(out@ =~= seq![0x30u8, 0x78u8] + spec_hex_render(self.spec_value() as nat, 16));
            crate::parse::lemma_hex_render_bounds(self.spec_value() as nat, 16);
        }
        ascii_bytes_to_string(out)
    }
}

impl Default for AddressU64 {
    fn default() -> (r: Self)
        ensures
            r.0@ == spec_zeros(8),
            r.wf(),
    {
        AddressU64(zero_vec(8))
    }
}

// ---------------------------------------------------------------------------
// Packed OS version
// ---------------------------------------------------------------------------

/// The delimiters of the textual OS-version form `major.minor.patch (yyyy-mm)`.
pub open spec fn is_os_delim(b: u8) -> bool {
    b == 0x2E || b == 0x20 || b == 0x28 || b == 0x29 || b == 0x2D
}

/// The non-empty runs of non-delimiter bytes of `s`, given the bytes `cur`
/// of the run in progress.
pub open spec fn spec_tokens_from(s: Seq<u8>, cur: Seq<u8>) -> Seq<Seq<u8>>
    decreases s.len(),
{
    if s.len() == 0 {
        if cur.len() > 0 {
            seq![cur]
        } else {
            Seq::empty()
        }
    } else if is_os_delim(s.first()) {
        if cur.len() > 0 {
            seq![cur] + spec_tokens_from(s.drop_first(), Seq::empty())
        } else {
            spec_tokens_from(s.drop_first(), Seq::empty())
        }
    } else {
        spec_tokens_from(s.drop_first(), cur.push(s.first()))
    }
}

/// The non-empty runs of non-delimiter bytes of `s`.
pub open spec fn spec_tokens(s: Seq<u8>) -> Seq<Seq<u8>> {
    spec_tokens_from(s, Seq::empty())
}

/// Splits on the OS-version delimiters, dropping empty pieces.
pub fn split_os_tokens(s: &[u8]) -> (r: Vec<Vec<u8>>)
    ensures
        r.deep_view() == spec_tokens(s@),
{
    let mut out: Vec<Vec<u8>> = Vec::new();
    let mut cur: Vec<u8> = Vec::new();
    let mut i: usize = 0;
    proof {
        assert(s@.skip(0) =~= s@);
        assert(out.deep_view() =~= Seq::<Seq<u8>>::empty());
        assert(spec_tokens(s@) =~= out.deep_view() + spec_tokens_from(s@.skip(0), cur@));
    }
    while i < s.len()
        invariant
            0 <= i <= s@.len(),
            spec_tokens(s@) == out.deep_view() + spec_tokens_from(s@.skip(i as int), cur@),
        decreases s@.len() - i,
    {
        let ghost rest = s@.skip(i as int);
        let ghost out0 = out.deep_view();
        let ghost cur0 = cur@;
        let b = s[i];
        proof {
            assert(rest.len() > 0);
            assert(rest.first() == s@[i as int]);
            assert(rest.drop_first() =~= s@.skip(i as int + 1));
        }
        if b == 0x2E || b == 0x20 || b == 0x28 || b == 0x29 || b == 0x2D {
            proof {
                assert(is_os_delim(rest.first()));
            }
            if cur.len() > 0 {
                out.push(cur);
                cur = Vec::new();
                proof {
                    assert(out.deep_view() =~~= out0.push(cur0));
                    assert(cur@ =~= Seq::<u8>::empty());
                    assert(spec_tokens_from(rest, cur0) == seq![cur0] + spec_tokens_from(
                        rest.drop_first(),
                        Seq::empty(),
                    ));
                    assert(out0 + (seq![cur0] + spec_tokens_from(rest.drop_first(), Seq::empty()))
                        =~~= out0.push(cur0) + spec_tokens_from(rest.drop_first(), Seq::empty()));
                }
            } else {
                proof {
                    assert(cur@ =~= Seq::<u8>::empty());
                    assert(spec_tokens_from(rest, cur0) == spec_tokens_from(
                        rest.drop_first(),
                        Seq::empty(),
                    ));
                }
            }
        } else {
            cur.push(b);
            proof {
                assert(!is_os_delim(rest.first()));
                assert(spec_tokens_from(rest, cur0) == spec_tokens_from(
                    rest.drop_first(),
                    cur0.push(rest.first()),
                ));
                assert(cur@ == cur0.push(s@[i as int]));
            }
        }
        i = i + 1;
    }
    proof {
        assert(s@.skip(s@.len() as int) =~= Seq::<u8>::empty());
    }
    if cur.len() > 0 {
        let ghost out0 = out.deep_view();
        let ghost cur0 = cur@;
        proof {
            assert(spec_tokens_from(Seq::<u8>::empty(), cur0) == seq![cur0]);
        }
        out.push(cur);
        proof {
            assert(out.deep_view() =~~= out0.push(cur0));
            assert(out0 + seq![cur0] =~~= out0.push(cur0));
        }
    } else {
        proof {
            assert(spec_tokens_from(Seq::<u8>::empty(), cur@) =~= Seq::<Seq<u8>>::empty());
            assert(out.deep_view() + Seq::<Seq<u8>>::empty() =~= out.deep_view());
        }
    }
    out
}

/// Packs the five parsed components into the 32-bit OS-version value.
pub open spec fn spec_os_pack(a: u32, b: u32, c: u32, y: u32, m: u32) -> u32 {
    ((a & 0x7F) << 25) | ((b & 0x7F) << 18) | ((c & 0x7F) << 11) | (((if y >= 2000 {
        (y - 2000) as u32
    } else {
        0
    }) & 0xF) << 4) | (m & 0xF)
}

/// A token's decimal value, or zero when it is not an in-range number.
pub open spec fn dec_or_zero(s: Seq<u8>) -> u32 {
    match spec_parse_u32_dec(s) {
        Some(v) => v,
        None => 0,
    }
}

/// What OS-version text parses to: the first five tokens packed, or zero
/// when fewer than five tokens are present.
pub open spec fn spec_os_parse(s: Seq<u8>) -> u32 {
    let ts = spec_tokens(s);
    if ts.len() >= 5 {
        spec_os_pack(
            dec_or_zero(ts[0]),
            dec_or_zero(ts[1]),
            dec_or_zero(ts[2]),
            dec_or_zero(ts[3]),
            dec_or_zero(ts[4]),
        )
    } else {
        0
    }
}

pub open spec fn spec_os_major(v: u32) -> u32 {
    v >> 25
}

pub open spec fn spec_os_minor(v: u32) -> u32 {
    (v >> 18) & 0x7F
}

pub open spec fn spec_os_patch(v: u32) -> u32 {
    (v >> 11) & 0x7F
}

pub open spec fn spec_os_year(v: u32) -> u32 {
    (((v >> 4) & 0xF) + 2000) as u32
}

pub open spec fn spec_os_month(v: u32) -> u32 {
    v & 0xF
}

/// The textual OS-version form `major.minor.patch (yyyy-mm)`.
pub open spec fn spec_os_render(v: u32) -> Seq<u8> {
    spec_dec_render(spec_os_major(v) as nat) + seq![0x2Eu8] + spec_dec_render(
        spec_os_minor(v) as nat,
    ) + seq![0x2Eu8] + spec_dec_render(spec_os_patch(v) as nat) + seq![0x20u8, 0x28u8]
        + spec_dec_render(spec_os_year(v) as nat) + seq![0x2Du8] + spec_dec_render_pad2(
        spec_os_month(v) as nat,
    ) + seq![0x29u8]
}

/// The packed OS-version field: `major | minor | patch | year-2000 | month`
/// in 7, 7, 7, 4 and 4 bits from the top.
#[derive(Debug, Clone)]
pub struct OSVersion(pub u32);

impl OSVersion {
    pub fn major(&self) -> (r: u32)
        ensures
            r == spec_os_major(self.0),
    {
        self.0 >> 25
    }

    pub fn minor(&self) -> (r: u32)
        ensures
            r == spec_os_minor(self.0),
    {
        (self.0 >> 18) & 0x7F
    }

    pub fn patch(&self) -> (r: u32)
        ensures
            r == spec_os_patch(self.0),
    {
        (self.0 >> 11) & 0x7F
    }

    pub fn year(&self) -> (r: u32)
        ensures
            r == spec_os_year(self.0),
    {
        let v = self.0;
        let y = (v >> 4) & 0xF;
        assert((v >> 4) & 0xF <= 0xF) by (bit_vector);
        y + 2000
    }

    pub fn month(&self) -> (r: u32)
        ensures
            r == spec_os_month(self.0),
    {
        self.0 & 0xF
    }

    /// Renders the version as `major.minor.patch (yyyy-mm)`.
    pub fn display_string(&self) -> (r: String)
        ensures
            r@ == ascii_chars(spec_os_render(self.0)),
    {
        let mut out = render_u32_dec(self.major());
        out.push(0x2E);
        let mut p = render_u32_dec(self.minor());
        out.append(&mut p);
        out.push(0x2E);
        let mut p = render_u32_dec(self.patch());
        out.append(&mut p);
        out.push(0x20);
        out.push(0x28);
        let mut p = render_u32_dec(self.year());
        out.append(&mut p);
        out.push(0x2D);
        let mut p = render_u32_dec_pad2(self.month());
        out.append(&mut p);
        out.push(0x29);
        proof {
            assert(out@ =~= spec_os_render(self.0));
            lemma_dec_render_val(spec_os_major(self.0) as nat);
            lemma_dec_render_val(spec_os_minor(self.0) as nat);
            lemma_dec_render_val(spec_os_patch(self.0) as nat);
            lemma_dec_render_val(spec_os_year(self.0) as nat);
            lemma_dec_render_val(spec_os_month(self.0) as nat);
            assert forall|i: int| 0 <= i < out@.len() implies #[trigger] out@[i] < 0x80 by {
                lemma_os_render_bounds(self.0);
            }
        }
        ascii_bytes_to_string(out)
    }

    /// Parses `major.minor.patch (yyyy-mm)` text, packing the first five
    /// numeric tokens and defaulting every unparsed component to zero.
    pub fn from_text(s: &str) -> (r: Self)
        ensures
            r.0 == spec_os_parse(s.spec_bytes()),
    {
        let b = s.as_bytes();
        let tokens = split_os_tokens(b);
        if tokens.len() >= 5 {
            let a = parse_dec_or_zero(&tokens[0]);
            let bb = parse_dec_or_zero(&tokens[1]);
            let c = parse_dec_or_zero(&tokens[2]);
            let y = parse_dec_or_zero(&tokens[3]);
            let m = parse_dec_or_zero(&tokens[4]);
            proof {
                let ts = spec_tokens(s.spec_bytes());
                assert(ts.len() == tokens@.len());
                assert(tokens@[0].deep_view() =~= tokens@[0]@);
                assert(tokens@[1].deep_view() =~= tokens@[1]@);
                assert(tokens@[2].deep_view() =~= tokens@[2]@);
                assert(tokens@[3].deep_view() =~= tokens@[3]@);
                assert(tokens@[4].deep_view() =~= tokens@[4]@);
                assert(ts[0] == tokens@[0]@);
                assert(ts[1] == tokens@[1]@);
                assert(ts[2] == tokens@[2]@);
                assert(ts[3] == tokens@[3]@);
                assert(ts[4] == tokens@[4]@);
            }
            let ys = if y >= 2000 {
                y - 2000
            } else {
                0
            };
            let packed = ((a & 0x7F) << 25) | ((bb & 0x7F) << 18) | ((c & 0x7F) << 11) | ((ys
                & 0xF) << 4) | (m & 0xF);
            OSVersion(packed)
        } else {
            OSVersion(0)
        }
    }
}

/// Every byte of an OS-version rendering is printable ASCII.
pub proof fn lemma_os_render_bounds(v: u32)
    ensures
        forall|i: int|
            0 <= i < spec_os_render(v).len() ==> #[trigger] spec_os_render(v)[i] < 0x80,
{
    lemma_dec_render_val(spec_os_major(v) as nat);
    lemma_dec_render_val(spec_os_minor(v) as nat);
    lemma_dec_render_val(spec_os_patch(v) as nat);
    lemma_dec_render_val(spec_os_year(v) as nat);
    lemma_dec_render_val(spec_os_month(v) as nat);
    let s = spec_os_render(v);
    assert forall|i: int| 0 <= i < s.len() implies #[trigger] s[i] < 0x80 by {
        lemma_os_render_piecewise(v, i);
    }
}

proof fn lemma_os_render_piecewise(v: u32, i: int)
    requires
        0 <= i < spec_os_render(v).len(),
    ensures
        spec_os_render(v)[i] < 0x80,
{
    lemma_dec_render_val(spec_os_major(v) as nat);
    lemma_dec_render_val(spec_os_minor(v) as nat);
    lemma_dec_render_val(spec_os_patch(v) as nat);
    lemma_dec_render_val(spec_os_year(v) as nat);
    lemma_dec_render_val(spec_os_month(v) as nat);
}

fn parse_dec_or_zero(s: &Vec<u8>) -> (r: u32)
    ensures
        r == dec_or_zero(s@),
{
    match parse_u32_dec(s.as_slice()) {
        Some(v) => v,
        None => 0,
    }
}

impl Default for OSVersion {
    fn default() -> (r: Self)
        ensures
            r.0 == 0,
    {
        OSVersion(0)
    }
}

} // verus!

verus! {

// ---------------------------------------------------------------------------
// OS-version round-trip law
// ---------------------------------------------------------------------------

/// Decimal digits are never OS-version delimiters.
proof fn lemma_digits_not_delims(s: Seq<u8>)
    requires
        all_dec_digits(s),
    ensures
        forall|i: int| 0 <= i < s.len() ==> !is_os_delim(#[trigger] s[i]),
{
}

/// A leading run of non-delimiters moves whole into the current token.
proof fn lemma_tokens_nondelim(t: Seq<u8>, rest: Seq<u8>, cur: Seq<u8>)
    requires
        forall|i: int| 0 <= i < t.len() ==> !is_os_delim(#[trigger] t[i]),
    ensures
        spec_tokens_from(t + rest, cur) == spec_tokens_from(rest, cur + t),
    decreases t.len(),
{
    if t.len() == 0 {
        assert(t + rest =~= rest);
        assert(cur + t =~= cur);
    } else {
        let s = t + rest;
        assert(s.len() > 0);
        assert(s.first() == t[0]);
        assert(!is_os_delim(s.first()));
        assert(s.drop_first() =~= t.drop_first() + rest);
        assert(forall|i: int|
            0 <= i < t.drop_first().len() ==> !is_os_delim(#[trigger] t.drop_first()[i]));
        lemma_tokens_nondelim(t.drop_first(), rest, cur.push(t[0]));
        assert(cur.push(t[0]) + t.drop_first() =~= cur + t);
        assert(spec_tokens_from(s, cur) == spec_tokens_from(s.drop_first(), cur.push(s.first())));
    }
}

/// A delimiter closes a non-empty current token.
proof fn lemma_tokens_delim(rest: Seq<u8>, cur: Seq<u8>, d: u8)
    requires
        is_os_delim(d),
        cur.len() > 0,
    ensures
        spec_tokens_from(seq![d] + rest, cur) == seq![cur] + spec_tokens_from(rest, Seq::empty()),
{
    let s = seq![d] + rest;
    assert(s.first() == d);
    assert(s.drop_first() =~= rest);
}

/// A delimiter with nothing pending is skipped.
proof fn lemma_tokens_delim_empty(rest: Seq<u8>, d: u8)
    requires
        is_os_delim(d),
    ensures
        spec_tokens_from(seq![d] + rest, Seq::empty()) == spec_tokens_from(rest, Seq::empty()),
{
    let s = seq![d] + rest;
    assert(s.first() == d);
    assert(s.drop_first() =~= rest);
}

/// The two-digit month rendering parses back to the month.
proof fn lemma_pad2_val(n: nat)
    requires
        n < 100,
    ensures
        spec_dec_render_pad2(n).len() >= 1,
        all_dec_digits(spec_dec_render_pad2(n)),
        dec_val(spec_dec_render_pad2(n)) == n,
{
    lemma_dec_render_val(n);
    if n < 10 {
        let s = spec_dec_render_pad2(n);
        assert(s =~= seq![0x30u8, (0x30 + n) as u8]);
        assert(s.drop_last() =~= seq![0x30u8]);
        assert(seq![0x30u8].drop_last() =~= Seq::<u8>::empty());
        assert(dec_val(Seq::<u8>::empty()) == 0);
        assert(dec_val(seq![0x30u8]) == 0);
        assert(dec_val(s) == n);
        assert(forall|i: int| 0 <= i < s.len() ==> is_dec_digit(#[trigger] s[i]));
    }
}

/// The tokens of a rendered OS version are exactly its five numbers.
proof fn lemma_os_render_tokens(v: u32)
    ensures
        spec_tokens(spec_os_render(v)) =~= seq![
            spec_dec_render(spec_os_major(v) as nat),
            spec_dec_render(spec_os_minor(v) as nat),
            spec_dec_render(spec_os_patch(v) as nat),
            spec_dec_render(spec_os_year(v) as nat),
            spec_dec_render_pad2(spec_os_month(v) as nat),
        ],
{
    let aa = spec_dec_render(spec_os_major(v) as nat);
    let bb = spec_dec_render(spec_os_minor(v) as nat);
    let cc = spec_dec_render(spec_os_patch(v) as nat);
    let yy = spec_dec_render(spec_os_year(v) as nat);
    let mm = spec_dec_render_pad2(spec_os_month(v) as nat);
    lemma_dec_render_val(spec_os_major(v) as nat);
    lemma_dec_render_val(spec_os_minor(v) as nat);
    lemma_dec_render_val(spec_os_patch(v) as nat);
    lemma_dec_render_val(spec_os_year(v) as nat);
    assert(spec_os_month(v) < 100) by (bit_vector)
        requires
            spec_os_month(v) == v & 0xF,
    ;
    lemma_pad2_val(spec_os_month(v) as nat);
    lemma_digits_not_delims(aa);
    lemma_digits_not_delims(bb);
    lemma_digits_not_delims(cc);
    lemma_digits_not_delims(yy);
    lemma_digits_not_delims(mm);
    let s9 = seq![0x29u8];
    let s8 = mm + s9;
    let s7 = seq![0x2Du8] + s8;
    let s6 = yy + s7;
    let s5 = seq![0x28u8] + s6;
    let s4 = seq![0x20u8] + s5;
    let s3 = cc + s4;
    let s2 = seq![0x2Eu8] + s3;
    let s1 = bb + s2;
    let s0 = seq![0x2Eu8] + s1;
    assert(spec_os_render(v) =~= aa + s0);
    let e = Seq::<u8>::empty();
    lemma_tokens_nondelim(aa, s0, e);
    assert(e + aa =~= aa);
    lemma_tokens_delim(s1, aa, 0x2E);
    lemma_tokens_nondelim(bb, s2, e);
    assert(s1 =~= bb + s2);
    assert(e + bb =~= bb);
    lemma_tokens_delim(s3, bb, 0x2E);
    lemma_tokens_nondelim(cc, s4, e);
    assert(s3 =~= cc + s4);
    assert(e + cc =~= cc);
    lemma_tokens_delim(s5, cc, 0x20);
    lemma_tokens_delim_empty(s6, 0x28);
    lemma_tokens_nondelim(yy, s7, e);
    assert(e + yy =~= yy);
    lemma_tokens_delim(s8, yy, 0x2D);
    lemma_tokens_nondelim(mm, s9, e);
    assert(s8 =~= mm + s9);
    assert(e + mm =~= mm);
    assert(s9 =~= seq![0x29u8] + e);
    lemma_tokens_delim(e, mm, 0x29);
    assert(spec_tokens_from(e, e) =~= Seq::<Seq<u8>>::empty());
    assert(spec_tokens(spec_os_render(v)) =~= seq![aa] + (seq![bb] + (seq![cc] + (seq![yy] + (
    seq![mm] + Seq::<Seq<u8>>::empty())))));
    assert(seq![aa] + (seq![bb] + (seq![cc] + (seq![yy] + (seq![mm]
        + Seq::<Seq<u8>>::empty())))) =~= seq![aa, bb, cc, yy, mm]);
}

/// Rendering a packed OS version and parsing the text gives the packed
/// value back, for every value whose unused bits are clear.
pub proof fn lemma_os_version_round_trip(v: u32)
    requires
        v & 0x700 == 0,
    ensures
        spec_os_parse(spec_os_render(v)) == v,
{
    let a = spec_os_major(v);
    let b = spec_os_minor(v);
    let c = spec_os_patch(v);
    let y = spec_os_year(v);
    let m = spec_os_month(v);
    assert(a < 0x80 && b < 0x80 && c < 0x80 && ((v >> 4) & 0xF) < 0x10 && m < 0x10)
        by (bit_vector)
        requires
            a == v >> 25 && b == (v >> 18) & 0x7F && c == (v >> 11) & 0x7F && m == v & 0xF,
    ;
    lemma_os_render_tokens(v);
    let ts = spec_tokens(spec_os_render(v));
    lemma_dec_render_val(a as nat);
    lemma_dec_render_val(b as nat);
    lemma_dec_render_val(c as nat);
    lemma_dec_render_val(y as nat);
    assert(m < 100);
    lemma_pad2_val(m as nat);
    assert(dec_or_zero(ts[0]) == a);
    assert(dec_or_zero(ts[1]) == b);
    assert(dec_or_zero(ts[2]) == c);
    assert(dec_or_zero(ts[3]) == y);
    assert(dec_or_zero(ts[4]) == m);
    assert(y >= 2000);
    let ys = (y - 2000) as u32;
    assert(ys == (v >> 4) & 0xF);
    assert(spec_os_parse(spec_os_render(v)) == spec_os_pack(a, b, c, y, m));
    assert(spec_os_pack(a, b, c, y, m) == ((a & 0x7F) << 25) | ((b & 0x7F) << 18) | ((c & 0x7F)
        << 11) | ((ys & 0xF) << 4) | (m & 0xF));
    assert(((((v >> 25) & 0x7F) << 25) | ((((v >> 18) & 0x7F) & 0x7F) << 18) | ((((v >> 11)
        & 0x7F) & 0x7F) << 11) | ((((v >> 4) & 0xF) & 0xF) << 4) | ((v & 0xF) & 0xF)) == v)
        by (bit_vector)
        requires
            v & 0x700 == 0,
    ;
}

} // verus!
