use vstd::prelude::*;

verus! {

/// A sequence of `n` zero bytes.
pub open spec fn spec_zeros(n: int) -> Seq<u8> {
    Seq::new(n as nat, |i| 0u8)
}

/// `s` truncated or NUL-padded to exactly `w` bytes.
pub open spec fn spec_fit(s: Seq<u8>, w: int) -> Seq<u8> {
    if s.len() >= w {
        s.take(w)
    } else {
        s + spec_zeros(w - s.len())
    }
}

/// `s` with every trailing NUL byte removed.
pub open spec fn spec_strip_trailing_nuls(s: Seq<u8>) -> Seq<u8>
    decreases s.len(),
{
    if s.len() > 0 && s.last() == 0 {
        spec_strip_trailing_nuls(s.drop_last())
    } else {
        s
    }
}

/// `s` with every byte outside the ASCII range removed.
pub open spec fn spec_filter_ascii(s: Seq<u8>) -> Seq<u8>
    decreases s.len(),
{
    if s.len() == 0 {
        Seq::empty()
    } else {
        let rest = spec_filter_ascii(s.drop_last());
        if s.last() < 0x80 {
            rest.push(s.last())
        } else {
            rest
        }
    }
}

/// The human-readable form of a fixed-width text field: trailing NULs
/// stripped, then non-ASCII bytes dropped.
pub open spec fn spec_text_of(s: Seq<u8>) -> Seq<u8> {
    spec_filter_ascii(spec_strip_trailing_nuls(s))
}

/// ASCII bytes read as characters, one for one.
pub open spec fn ascii_chars(s: Seq<u8>) -> Seq<char> {
    Seq::new(s.len(), |i| s[i] as char)
}

pub proof fn lemma_filter_ascii_bounds(s: Seq<u8>)
    ensures
        forall|i: int|
            0 <= i < spec_filter_ascii(s).len() ==> #[trigger] spec_filter_ascii(s)[i] < 0x80,
    decreases s.len(),
{
    if s.len() > 0 {
        lemma_filter_ascii_bounds(s.drop_last());
        let rest = spec_filter_ascii(s.drop_last());
        if s.last() < 0x80 {
            assert(spec_filter_ascii(s) == rest.push(s.last()));
            assert forall|i: int| 0 <= i < spec_filter_ascii(s).len() implies #[trigger] spec_filter_ascii(s)[i] < 0x80 by {
                if i < rest.len() {
                    assert(spec_filter_ascii(s)[i] == rest[i]);
                }
            }
        }
    }
}

/// A vector of `n` zero bytes.
pub fn zero_vec(n: usize) -> (r: Vec<u8>)
    ensures
        r@ =~= spec_zeros(n as int),
{
    let mut v: Vec<u8> = Vec::new();
    let mut i: usize = 0;
    while i < n
        invariant
            0 <= i <= n,
            v@ =~= spec_zeros(i as int),
        decreases n - i,
    {
        v.push(0);
        assert(v@ =~= spec_zeros(i as int + 1));
        i = i + 1;
    }
    v
}

/// Truncates or NUL-pads `s` to exactly `w` bytes.
pub fn fit_bytes(s: &[u8], w: usize) -> (r: Vec<u8>)
    ensures
        r@ =~= spec_fit(s@, w as int),
        r@.len() == w,
{
    let mut v: Vec<u8> = Vec::new();
    let mut i: usize = 0;
    while i < w
        invariant
            0 <= i <= w,
            v@.len() == i,
            forall|j: int|
                0 <= j < i ==> v@[j] == (if j < s@.len() {
                    s@[j]
                } else {
                    0u8
                }),
        decreases w - i,
    {
        if i < s.len() {
            let b = s[i];
            v.push(b);
        } else {
            v.push(0);
        }
        i = i + 1;
    }
    assert(v@ =~= spec_fit(s@, w as int));
    v
}

/// Copies `s[from..to]` into an owned vector.
pub fn copy_range(s: &[u8], from: usize, to: usize) -> (r: Vec<u8>)
    requires
        from <= to <= s@.len(),
    ensures
        r@ =~= s@.subrange(from as int, to as int),
{
    let mut v: Vec<u8> = Vec::new();
    let mut i: usize = from;
    while i < to
        invariant
            from <= i <= to <= s@.len(),
            v@ =~= s@.subrange(from as int, i as int),
        decreases to - i,
    {
        let b = s[i];
        v.push(b);
        assert(v@ =~= s@.subrange(from as int, i as int + 1));
        i = i + 1;
    }
    v
}

/// The printable text of a fixed-width field's raw bytes.
pub fn text_of_bytes(s: &[u8]) -> (r: Vec<u8>)
    ensures
        r@ == spec_text_of(s@),
{
    let mut end: usize = s.len();
    proof {
        assert(s@.take(end as int) =~= s@);
    }
    while end > 0 && s[end - 1] == 0
        invariant
            0 <= end <= s@.len(),
            spec_strip_trailing_nuls(s@) == spec_strip_trailing_nuls(s@.take(end as int)),
        decreases end,
    {
        proof {
            let t = s@.take(end as int);
            assert(t.last() == 0);
            assert(t.drop_last() =~= s@.take(end as int - 1));
        }
        end = end - 1;
    }
    proof {
        let t = s@.take(end as int);
        if end > 0 {
            assert(t.last() == s@[end as int - 1]);
            assert(t.last() != 0);
        }
        assert(spec_strip_trailing_nuls(t) == t);
    }
    let stripped = copy_range(s, 0, end);
    let mut out: Vec<u8> = Vec::new();
    let mut i: usize = 0;
    while i < stripped.len()
        invariant
            0 <= i <= stripped@.len(),
            out@ == spec_filter_ascii(stripped@.take(i as int)),
        decreases stripped@.len() - i,
    {
        let b = stripped[i];
        proof {
            let t = stripped@.take(i as int + 1);
            assert(t.drop_last() =~= stripped@.take(i as int));
            assert(t.last() == stripped@[i as int]);
        }
        if b < 0x80 {
            out.push(b);
        }
        i = i + 1;
    }
    proof {
        assert(stripped@.take(stripped@.len() as int) =~= stripped@);
    }
    out
}

/// Appends all of `s` to `out`.
pub fn push_bytes(out: &mut Vec<u8>, s: &[u8])
    ensures
        final(out)@ == old(out)@ + s@,
{
    let mut i: usize = 0;
    while i < s.len()
        invariant
            0 <= i <= s@.len(),
            out@ =~= old(out)@ + s@.take(i as int),
        decreases s@.len() - i,
    {
        let b = s[i];
        out.push(b);
        assert(out@ =~= old(out)@ + s@.take(i as int + 1));
        i = i + 1;
    }
    assert(out@ =~= old(out)@ + s@);
}

/// Relies on `String::from_utf8`: bytes below 0x80 are single-byte UTF-8
/// code points, so they decode one-for-one to the same characters.
#[verifier::external_body]
pub fn ascii_bytes_to_string(v: Vec<u8>) -> (r: String)
    requires
        forall|i: int| 0 <= i < v@.len() ==> v@[i] < 0x80,
    ensures
        r@ == ascii_chars(v@),
{
    String::from_utf8(v).unwrap_or_default()
}

} // verus!
