use vstd::prelude::*;

pub mod android;
pub mod bytesutil;
pub mod cli;
pub mod errors;
pub mod fields;
pub mod headers;
pub mod layout;
pub mod ops;
pub mod parse;
pub mod types;
pub mod utils;

pub use errors::AbootCrafterError;

verus! {

/// Number of bytes in the boot-image magic field.
pub const BOOT_MAGIC_SIZE: usize = 8;

/// The page size fixed by the format for headers of version 3 and 4,
/// which store no page-size field of their own.
pub const PAGE_SIZE_V3: u32 = 4096;

/// The boot-image magic as a byte sequence: the ASCII text `ANDROID!`.
pub open spec fn spec_boot_magic() -> Seq<u8> {
    seq![0x41u8, 0x4Eu8, 0x44u8, 0x52u8, 0x4Fu8, 0x49u8, 0x44u8, 0x21u8]
}

/// The boot-image magic, as owned bytes.
pub fn boot_magic_bytes() -> (r: Vec<u8>)
    ensures
        r@ == spec_boot_magic(),
{
    let mut v: Vec<u8> = Vec::new();
    v.push(0x41);
    v.push(0x4E);
    v.push(0x44);
    v.push(0x52);
    v.push(0x4F);
    v.push(0x49);
    v.push(0x44);
    v.push(0x21);
    assert(v@ =~= spec_boot_magic());
    v
}

} // verus!
