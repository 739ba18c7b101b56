use vstd::prelude::*;

verus! {

/// The width of the product-name field in the flat header.
pub const BOOT_NAME_SIZE: usize = 16;

/// The width of the command-line field in the flat header.
pub const BOOT_ARGS_SIZE: usize = 512;

/// A flat view of the classic header: every field at its fixed width,
/// addresses as plain integers, the id as eight little-endian words.
#[derive(Debug, Clone)]
pub struct BootImgHeader {
    pub magic: [u8; 8],
    pub kernel_size: u32,
    pub kernel_addr: u32,
    pub ramdisk_size: u32,
    pub ramdisk_addr: u32,
    pub second_size: u32,
    pub second_addr: u32,
    pub tags_addr: u32,
    pub page_size: u32,
    pub name: [u8; 16],
    pub cmdline: [u8; 512],
    pub id: [u32; 8],
}

/// The abstract value of a flat header.
#[verifier::ext_equal]
pub struct BootImgHeaderView {
    pub magic: Seq<u8>,
    pub kernel_size: u32,
    pub kernel_addr: u32,
    pub ramdisk_size: u32,
    pub ramdisk_addr: u32,
    pub second_size: u32,
    pub second_addr: u32,
    pub tags_addr: u32,
    pub page_size: u32,
    pub name: Seq<u8>,
    pub cmdline: Seq<u8>,
    pub id: Seq<u32>,
}

impl View for BootImgHeader {
    type V = BootImgHeaderView;

    open spec fn view(&self) -> BootImgHeaderView {
        BootImgHeaderView {
            magic: self.magic@,
            kernel_size: self.kernel_size,
            kernel_addr: self.kernel_addr,
            ramdisk_size: self.ramdisk_size,
            ramdisk_addr: self.ramdisk_addr,
            second_size: self.second_size,
            second_addr: self.second_addr,
            tags_addr: self.tags_addr,
            page_size: self.page_size,
            name: self.name@,
            cmdline: self.cmdline@,
            id: self.id@,
        }
    }
}

impl Default for BootImgHeader {
    /// An empty flat header: the magic, a 2048-byte page, all else zero.
    fn default() -> (r: Self)
        ensures
            r@.magic == crate::spec_boot_magic(),
            r@.kernel_size == 0,
            r@.kernel_addr == 0,
            r@.ramdisk_size == 0,
            r@.ramdisk_addr == 0,
            r@.second_size == 0,
            r@.second_addr == 0,
            r@.tags_addr == 0,
            r@.page_size == 2048,
            r@.name == crate::bytesutil::spec_zeros(16),
            r@.cmdline == crate::bytesutil::spec_zeros(512),
            r@.id =~= seq![0u32, 0u32, 0u32, 0u32, 0u32, 0u32, 0u32, 0u32],
    {
        let magic = [0x41u8, 0x4Eu8, 0x44u8, 0x52u8, 0x4Fu8, 0x49u8, 0x44u8, 0x21u8];
        let r = BootImgHeader {
            magic,
            kernel_size: 0,
            kernel_addr: 0,
            ramdisk_size: 0,
            ramdisk_addr: 0,
            second_size: 0,
            second_addr: 0,
            tags_addr: 0,
            page_size: 2048,
            name: [0u8; 16],
            cmdline: [0u8; 512],
            id: [0u32; 8],
        };
        proof {
            assert(r@.magic =~= crate::spec_boot_magic());
            assert(r@.name =~= crate::bytesutil::spec_zeros(16));
            assert(r@.cmdline =~= crate::bytesutil::spec_zeros(512));
        }
        r
    }
}

/// Optional overrides a caller may carry for a synthesis operation; a
/// field left empty keeps the image's own value.
#[derive(Debug, Clone)]
pub struct BootConfig {
    pub boot_size: Option<u64>,
    pub page_size: Option<u32>,
    pub kernel_addr: Option<u32>,
    pub ramdisk_addr: Option<u32>,
    pub second_addr: Option<u32>,
    pub tags_addr: Option<u32>,
    pub cmdline: Option<String>,
}

impl Default for BootConfig {
    fn default() -> (r: Self)
        ensures
            r.boot_size is None,
            r.page_size is None,
            r.kernel_addr is None,
            r.ramdisk_addr is None,
            r.second_addr is None,
            r.tags_addr is None,
            r.cmdline is None,
    {
        BootConfig {
            boot_size: None,
            page_size: None,
            kernel_addr: None,
            ramdisk_addr: None,
            second_addr: None,
            tags_addr: None,
            cmdline: None,
        }
    }
}

} // verus!
