use vstd::prelude::*;

use crate::bytesutil::copy_range;
use crate::parse::{parse_u32_hex, parse_u64_hex, spec_parse_u32_hex, spec_parse_u64_hex};
use vstd::string::StringExecFns;
use vstd::string::StringSliceAdditionalSpecFns;

verus! {

/// The page sizes a boot image may legitimately declare.
#[derive(Debug, Clone, Copy, PartialEq, Eq, Structural)]
pub enum AndroidBootPageSizes {
    _2048,
    _4096,
    _8192,
    _16384,
}

impl AndroidBootPageSizes {
    /// The page size in bytes; always positive.
    pub fn as_u32(&self) -> (r: u32)
        ensures
            (self is _2048) ==> r == 2048,
            (self is _4096) ==> r == 4096,
            (self is _8192) ==> r == 8192,
            (self is _16384) ==> r == 16384,
            r >= 2048,
    {
        match self {
            AndroidBootPageSizes::_2048 => 2048,
            AndroidBootPageSizes::_4096 => 4096,
            AndroidBootPageSizes::_8192 => 8192,
            AndroidBootPageSizes::_16384 => 16384,
        }
    }
}

/// Accepts exactly the ASCII strings, unchanged.
pub fn ascii_string_value_parser(s: &str) -> (r: Result<String, String>)
    ensures
        r is Ok <==> s.is_ascii(),
        r matches Ok(v) ==> v@ == s@,
{
    if s.is_ascii() {
        Ok(String::from_str(s))
    } else {
        Err(String::from_str("String must be ASCII compatible"))
    }
}

/// Whether an address text is `0x` followed by hexadecimal digits whose
/// value fits the 32-bit width.
pub open spec fn spec_addr32_text_ok(s: Seq<u8>) -> bool {
    s.len() >= 2 && s[0] == 0x30 && s[1] == 0x78 && spec_parse_u32_hex(s.skip(2)) is Some
}

pub open spec fn spec_addr64_text_ok(s: Seq<u8>) -> bool {
    s.len() >= 2 && s[0] == 0x30 && s[1] == 0x78 && spec_parse_u64_hex(s.skip(2)) is Some
}

/// Accepts exactly the `0x`-prefixed 32-bit hexadecimal addresses,
/// unchanged.
pub fn address32_value_parser(s: &str) -> (r: Result<String, String>)
    ensures
        r is Ok <==> spec_addr32_text_ok(s.spec_bytes()),
        r matches Ok(v) ==> v@ == s@,
{
    let b = s.as_bytes();
    if b.len() >= 2 && b[0] == 0x30 && b[1] == 0x78 {
        let rest = copy_range(b, 2, b.len());
        proof {
            assert(rest@ =~= s.spec_bytes().skip(2));
        }
        match parse_u32_hex(rest.as_slice()) {
            Some(_) => Ok(String::from_str(s)),
            None => Err(String::from_str("invalid 32-bit hexadecimal address")),
        }
    } else {
        Err(String::from_str("Address must start with 0x"))
    }
}

/// Accepts exactly the `0x`-prefixed 64-bit hexadecimal addresses,
/// unchanged.
pub fn address64_value_parser(s: &str) -> (r: Result<String, String>)
    ensures
        r is Ok <==> spec_addr64_text_ok(s.spec_bytes()),
        r matches Ok(v) ==> v@ == s@,
{
    let b = s.as_bytes();
    if b.len() >= 2 && b[0] == 0x30 && b[1] == 0x78 {
        let rest = copy_range(b, 2, b.len());
        proof {
            assert(rest@ =~= s.spec_bytes().skip(2));
        }
        match parse_u64_hex(rest.as_slice()) {
            Some(_) => Ok(String::from_str(s)),
            None => Err(String::from_str("invalid 64-bit hexadecimal address")),
        }
    } else {
        Err(String::from_str("Address must start with 0x"))
    }
}

} // verus!
