use vstd::prelude::*;

use crate::android::{
    check_magic, spec_detected_version, spec_encode_header, spec_header_len, spec_magic_ok,
    spec_parse_header, spec_raw_version, AndroidHeader, AndroidHeaderVersion0,
    AndroidHeaderVersion1, AndroidHeaderVersion2, AndroidHeaderVersion3, AndroidHeaderVersion4,
    HeaderView,
};
use crate::errors::AbootCrafterError;
use vstd::bytes::u32_from_le_bytes;

verus! {

/// A loaded boot-image header, named after the record it was read in.
#[derive(Debug)]
pub enum BootHeader {
    AndroidHeaderVersion0(AndroidHeaderVersion0),
    AndroidHeaderVersion1(AndroidHeaderVersion1),
    AndroidHeaderVersion2(AndroidHeaderVersion2),
    AndroidHeaderVersion3(AndroidHeaderVersion3),
    AndroidHeaderVersion4(AndroidHeaderVersion4),
}

impl View for BootHeader {
    type V = HeaderView;

    open spec fn view(&self) -> HeaderView {
        match self {
            BootHeader::AndroidHeaderVersion0(h) => HeaderView::V0(h@),
            BootHeader::AndroidHeaderVersion1(h) => HeaderView::V1(h@),
            BootHeader::AndroidHeaderVersion2(h) => HeaderView::V2(h@),
            BootHeader::AndroidHeaderVersion3(h) => HeaderView::V3(h@),
            BootHeader::AndroidHeaderVersion4(h) => HeaderView::V4(h@),
        }
    }
}

impl BootHeader {
    pub open spec fn wf(&self) -> bool {
        self@.wf()
    }

    /// Demands the boot-image magic at the start of the bytes.
    pub fn validate_magic(bytes: &[u8]) -> (r: Result<(), AbootCrafterError>)
        ensures
            r is Ok <==> spec_magic_ok(bytes@),
            r matches Err(e) ==> e is InvalidMagic,
    {
        if check_magic(bytes) {
            Ok(())
        } else {
            Err(AbootCrafterError::InvalidMagic)
        }
    }

    /// Reads the version number stored at its fixed offset, common to
    /// every layout.
    pub fn get_version(bytes: &[u8]) -> (r: Result<u32, AbootCrafterError>)
        ensures
            bytes@.len() >= 44 ==> (r matches Ok(v) && v == spec_raw_version(bytes@)),
            bytes@.len() < 44 ==> (r matches Err(e) && e is TruncatedHeader),
    {
        if bytes.len() < 44 {
            Err(AbootCrafterError::TruncatedHeader)
        } else {
            Ok(u32_from_le_bytes(&bytes[40..44]))
        }
    }

    /// Reads a header from the opening bytes of a container file: magic
    /// first, then the stored version selects the record, any
    /// unrecognized value falling back to version 0.
    pub fn read_header(bytes: &[u8]) -> (r: Result<BootHeader, AbootCrafterError>)
        ensures
            !spec_magic_ok(bytes@) ==> (r matches Err(e) && e is InvalidMagic),
            spec_magic_ok(bytes@) && bytes@.len() < spec_header_len(spec_detected_version(bytes@))
                ==> (r matches Err(e) && e is TruncatedHeader),
            spec_magic_ok(bytes@) && bytes@.len() >= spec_header_len(spec_detected_version(bytes@))
                ==> (r matches Ok(h) && h@ == spec_parse_header(bytes@) && h@.wf()),
    {
        match AndroidHeader::decode(bytes) {
            Ok(AndroidHeader::V0(h)) => Ok(BootHeader::AndroidHeaderVersion0(h)),
            Ok(AndroidHeader::V1(h)) => Ok(BootHeader::AndroidHeaderVersion1(h)),
            Ok(AndroidHeader::V2(h)) => Ok(BootHeader::AndroidHeaderVersion2(h)),
            Ok(AndroidHeader::V3(h)) => Ok(BootHeader::AndroidHeaderVersion3(h)),
            Ok(AndroidHeader::V4(h)) => Ok(BootHeader::AndroidHeaderVersion4(h)),
            Err(e) => Err(e),
        }
    }

    /// Serializes the record back into its exact byte layout.
    pub fn write_header(self) -> (r: Vec<u8>)
        requires
            self.wf(),
        ensures
            r@ == spec_encode_header(self@),
            r@.len() == self@.spec_len(),
    {
        match self {
            BootHeader::AndroidHeaderVersion0(h) => h.encode(),
            BootHeader::AndroidHeaderVersion1(h) => h.encode(),
            BootHeader::AndroidHeaderVersion2(h) => h.encode(),
            BootHeader::AndroidHeaderVersion3(h) => h.encode(),
            BootHeader::AndroidHeaderVersion4(h) => h.encode(),
        }
    }
}

} // verus!
