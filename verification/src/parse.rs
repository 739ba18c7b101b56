use vstd::prelude::*;

verus! {

// ---------------------------------------------------------------------------
// Decimal digits
// ---------------------------------------------------------------------------

/// True for the ASCII bytes `0`..=`9`.
pub open spec fn is_dec_digit(b: u8) -> bool {
    0x30 <= b <= 0x39
}

pub open spec fn all_dec_digits(s: Seq<u8>) -> bool {
    forall|i: int| 0 <= i < s.len() ==> is_dec_digit(#[trigger] s[i])
}

/// The value of a string of decimal digits, most significant first.
pub open spec fn dec_val(s: Seq<u8>) -> nat
    decreases s.len(),
{
    if s.len() == 0 {
        0
    } else {
        dec_val(s.drop_last()) * 10 + (if is_dec_digit(s.last()) {
            (s.last() - 0x30) as nat
        } else {
            0
        })
    }
}

/// What parsing an unsigned 32-bit decimal number yields: the digits' value
/// when the input is non-empty, all digits, and in range; nothing otherwise.
pub open spec fn spec_parse_u32_dec(s: Seq<u8>) -> Option<u32> {
    if s.len() > 0 && all_dec_digits(s) && dec_val(s) <= u32::MAX {
        Some(dec_val(s) as u32)
    } else {
        None
    }
}

pub open spec fn spec_parse_u64_dec(s: Seq<u8>) -> Option<u64> {
    if s.len() > 0 && all_dec_digits(s) && dec_val(s) <= u64::MAX {
        Some(dec_val(s) as u64)
    } else {
        None
    }
}

proof fn lemma_dec_val_step(s: Seq<u8>, i: int)
    requires
        0 <= i < s.len(),
    ensures
        dec_val(s.take(i + 1)) == dec_val(s.take(i)) * 10 + (if is_dec_digit(s[i]) {
            (s[i] - 0x30) as nat
        } else {
            0
        }),
{
    assert(s.take(i + 1).drop_last() =~= s.take(i));
    assert(s.take(i + 1).last() == s[i]);
}

/// Parses a decimal number that must fit in `u64`.
pub fn parse_u64_dec(s: &[u8]) -> (r: Option<u64>)
    ensures
        r == spec_parse_u64_dec(s@),
{
    if s.len() == 0 {
        return None;
    }
    let mut acc: u64 = 0;
    let mut i: usize = 0;
    while i < s.len()
        invariant
            0 <= i <= s@.len(),
            s@.len() > 0,
            all_dec_digits(s@.take(i as int)),
            acc == dec_val(s@.take(i as int)),
        decreases s@.len() - i,
    {
        let b = s[i];
        if b < 0x30 || b > 0x39 {
            assert(!is_dec_digit(s@[i as int]));
            return None;
        }
        let d = (b - 0x30) as u64;
        proof {
            lemma_dec_val_step(s@, i as int);
        }
        if acc > (0xFFFF_FFFF_FFFF_FFFF - d) / 10 {
            proof {
                let t = s@.take(i as int + 1);
                assert(dec_val(t) == acc * 10 + d);
                assert(dec_val(t) > u64::MAX);
                lemma_dec_val_prefix_le(s@, i as int + 1);
            }
            return None;
        }
        acc = acc * 10 + d;
        i = i + 1;
    }
    proof {
        assert(s@.take(s@.len() as int) =~= s@);
    }
    Some(acc)
}

/// Parses a decimal number that must fit in `u32`.
pub fn parse_u32_dec(s: &[u8]) -> (r: Option<u32>)
    ensures
        r == spec_parse_u32_dec(s@),
{
    match parse_u64_dec(s) {
        Some(v) => {
            if v <= 0xFFFF_FFFF {
                Some(v as u32)
            } else {
                None
            }
        },
        None => None,
    }
}

/// A digit string's value only grows as more digits follow.
proof fn lemma_dec_val_prefix_le(s: Seq<u8>, i: int)
    requires
        0 <= i <= s.len(),
    ensures
        dec_val(s.take(i)) <= dec_val(s),
    decreases s.len() - i,
{
    if i < s.len() {
        lemma_dec_val_step(s, i);
        lemma_dec_val_prefix_le(s, i + 1);
    } else {
        assert(s.take(i) =~= s);
    }
}

// ---------------------------------------------------------------------------
// Decimal rendering
// ---------------------------------------------------------------------------

/// The shortest decimal rendering of `n`, most significant digit first.
pub open spec fn spec_dec_render(n: nat) -> Seq<u8>
    decreases n,
{
    if n < 10 {
        seq![(0x30 + n) as u8]
    } else {
        spec_dec_render(n / 10).push((0x30 + n % 10) as u8)
    }
}

/// Rendering then parsing a number gives the number back.
pub proof fn lemma_dec_render_val(n: nat)
    ensures
        spec_dec_render(n).len() >= 1,
        all_dec_digits(spec_dec_render(n)),
        dec_val(spec_dec_render(n)) == n,
    decreases n,
{
    if n < 10 {
        let s = spec_dec_render(n);
        assert(s.drop_last() =~= Seq::<u8>::empty());
        assert(dec_val(Seq::<u8>::empty()) == 0);
        assert(s.last() == (0x30 + n) as u8);
        assert(is_dec_digit(s.last()));
        assert(dec_val(s) == dec_val(s.drop_last()) * 10 + (s.last() - 0x30) as nat);
        assert(dec_val(s) == n);
    } else {
        lemma_dec_render_val(n / 10);
        let t = spec_dec_render(n / 10);
        let s = spec_dec_render(n);
        assert(s =~= t.push((0x30 + n % 10) as u8));
        assert(s.drop_last() =~= t);
        assert(s.last() == (0x30 + n % 10) as u8);
        assert(dec_val(s) == dec_val(t) * 10 + n % 10);
        assert(dec_val(t) * 10 + n % 10 == (n / 10) * 10 + n % 10);
        assert((n / 10) * 10 + n % 10 == n) by (nonlinear_arith);
        assert forall|i: int| 0 <= i < s.len() implies is_dec_digit(s[i]) by {
            if i < t.len() {
                assert(s[i] == t[i]);
            }
        }
    }
}

/// Renders `n` in decimal, shortest form.
pub fn render_u32_dec(n: u32) -> (r: Vec<u8>)
    ensures
        r@ == spec_dec_render(n as nat),
    decreases n,
{
    if n < 10 {
        let mut v: Vec<u8> = Vec::new();
        v.push(0x30 + n as u8);
        assert(v@ =~= spec_dec_render(n as nat));
        v
    } else {
        let mut v = render_u32_dec(n / 10);
        v.push(0x30 + (n % 10) as u8);
        v
    }
}

/// Renders `n` in decimal, padded with a leading zero to two digits.
pub open spec fn spec_dec_render_pad2(n: nat) -> Seq<u8> {
    if n < 10 {
        seq![0x30u8] + spec_dec_render(n)
    } else {
        spec_dec_render(n)
    }
}

pub fn render_u32_dec_pad2(n: u32) -> (r: Vec<u8>)
    ensures
        r@ == spec_dec_render_pad2(n as nat),
{
    if n < 10 {
        let mut v: Vec<u8> = Vec::new();
        v.push(0x30);
        v.push(0x30 + n as u8);
        assert(v@ =~= spec_dec_render_pad2(n as nat));
        v
    } else {
        render_u32_dec(n)
    }
}

// ---------------------------------------------------------------------------
// Hexadecimal digits
// ---------------------------------------------------------------------------

/// True for ASCII `0`..=`9`, `a`..=`f` and `A`..=`F`.
pub open spec fn is_hex_digit(b: u8) -> bool {
    (0x30 <= b <= 0x39) || (0x61 <= b <= 0x66) || (0x41 <= b <= 0x46)
}

pub open spec fn all_hex_digits(s: Seq<u8>) -> bool {
    forall|i: int| 0 <= i < s.len() ==> is_hex_digit(#[trigger] s[i])
}

pub open spec fn hex_digit_val(b: u8) -> nat {
    if 0x30 <= b <= 0x39 {
        (b - 0x30) as nat
    } else if 0x61 <= b <= 0x66 {
        (b - 0x61 + 10) as nat
    } else if 0x41 <= b <= 0x46 {
        (b - 0x41 + 10) as nat
    } else {
        0
    }
}

/// The value of a string of hexadecimal digits, most significant first.
pub open spec fn hex_val(s: Seq<u8>) -> nat
    decreases s.len(),
{
    if s.len() == 0 {
        0
    } else {
        hex_val(s.drop_last()) * 16 + hex_digit_val(s.last())
    }
}

pub open spec fn spec_parse_u32_hex(s: Seq<u8>) -> Option<u32> {
    if s.len() > 0 && all_hex_digits(s) && hex_val(s) <= u32::MAX {
        Some(hex_val(s) as u32)
    } else {
        None
    }
}

pub open spec fn spec_parse_u64_hex(s: Seq<u8>) -> Option<u64> {
    if s.len() > 0 && all_hex_digits(s) && hex_val(s) <= u64::MAX {
        Some(hex_val(s) as u64)
    } else {
        None
    }
}

proof fn lemma_hex_val_step(s: Seq<u8>, i: int)
    requires
        0 <= i < s.len(),
    ensures
        hex_val(s.take(i + 1)) == hex_val(s.take(i)) * 16 + hex_digit_val(s[i]),
{
    assert(s.take(i + 1).drop_last() =~= s.take(i));
    assert(s.take(i + 1).last() == s[i]);
}

proof fn lemma_hex_val_prefix_le(s: Seq<u8>, i: int)
    requires
        0 <= i <= s.len(),
    ensures
        hex_val(s.take(i)) <= hex_val(s),
    decreases s.len() - i,
{
    if i < s.len() {
        lemma_hex_val_step(s, i);
        lemma_hex_val_prefix_le(s, i + 1);
    } else {
        assert(s.take(i) =~= s);
    }
}

/// Parses a hexadecimal number (no `0x` prefix) that must fit in `u64`.
pub fn parse_u64_hex(s: &[u8]) -> (r: Option<u64>)
    ensures
        r == spec_parse_u64_hex(s@),
{
    if s.len() == 0 {
        return None;
    }
    let mut acc: u64 = 0;
    let mut i: usize = 0;
    while i < s.len()
        invariant
            0 <= i <= s@.len(),
            s@.len() > 0,
            all_hex_digits(s@.take(i as int)),
            acc == hex_val(s@.take(i as int)),
        decreases s@.len() - i,
    {
        let b = s[i];
        let d: u64;
        if 0x30 <= b && b <= 0x39 {
            d = (b - 0x30) as u64;
        } else if 0x61 <= b && b <= 0x66 {
            d = (b - 0x61 + 10) as u64;
        } else if 0x41 <= b && b <= 0x46 {
            d = (b - 0x41 + 10) as u64;
        } else {
            assert(!is_hex_digit(s@[i as int]));
            return None;
        }
        assert(d == hex_digit_val(s@[i as int]));
        proof {
            lemma_hex_val_step(s@, i as int);
        }
        if acc > (0xFFFF_FFFF_FFFF_FFFF - d) / 16 {
            proof {
                let t = s@.take(i as int + 1);
                assert(hex_val(t) == acc * 16 + d);
                assert(hex_val(t) > u64::MAX);
                lemma_hex_val_prefix_le(s@, i as int + 1);
            }
            return None;
        }
        acc = acc * 16 + d;
        i = i + 1;
    }
    proof {
        assert(s@.take(s@.len() as int) =~= s@);
    }
    Some(acc)
}

/// Parses a hexadecimal number (no `0x` prefix) that must fit in `u32`.
pub fn parse_u32_hex(s: &[u8]) -> (r: Option<u32>)
    ensures
        r == spec_parse_u32_hex(s@),
{
    match parse_u64_hex(s) {
        Some(v) => {
            if v <= 0xFFFF_FFFF {
                Some(v as u32)
            } else {
                None
            }
        },
        None => None,
    }
}

// ---------------------------------------------------------------------------
// Hexadecimal rendering, fixed width, lower case
// ---------------------------------------------------------------------------

/// The lower-case hexadecimal digit for a value below 16.
pub open spec fn spec_hex_digit(d: nat) -> u8 {
    if d < 10 {
        (0x30 + d) as u8
    } else {
        (0x57 + d) as u8
    }
}

/// `n` rendered as exactly `w` hexadecimal digits, high digit first.
pub open spec fn spec_hex_render(n: nat, w: nat) -> Seq<u8>
    decreases w,
{
    if w == 0 {
        Seq::empty()
    } else {
        spec_hex_render(n / 16, (w - 1) as nat).push(spec_hex_digit(n % 16))
    }
}

/// Every byte of a hexadecimal rendering is printable ASCII.
pub proof fn lemma_hex_render_bounds(n: nat, w: nat)
    ensures
        forall|i: int|
            0 <= i < spec_hex_render(n, w).len() ==> #[trigger] spec_hex_render(n, w)[i] < 0x80,
    decreases w,
{
    if w > 0 {
        lemma_hex_render_bounds(n / 16, (w - 1) as nat);
        let t = spec_hex_render(n / 16, (w - 1) as nat);
        let s = spec_hex_render(n, w);
        assert(s == t.push(spec_hex_digit(n % 16)));
        assert(spec_hex_digit(n % 16) < 0x80);
        assert forall|i: int| 0 <= i < s.len() implies #[trigger] s[i] < 0x80 by {
            if i < t.len() {
                assert(s[i] == t[i]);
            }
        }
    }
}

/// Renders the low digits of `n` as exactly `w` hexadecimal digits.
pub fn render_hex(n: u64, w: usize) -> (r: Vec<u8>)
    ensures
        r@ == spec_hex_render(n as nat, w as nat),
        r@.len() == w,
    decreases w,
{
    if w == 0 {
        let v: Vec<u8> = Vec::new();
        assert(v@ =~= spec_hex_render(n as nat, 0));
        v
    } else {
        let mut v = render_hex(n / 16, w - 1);
        let d = (n % 16) as u8;
        let c: u8 = if d < 10 {
            0x30 + d
        } else {
            0x57 + d
        };
        assert(c == spec_hex_digit((n % 16) as nat));
        v.push(c);
        v
    }
}

} // verus!
