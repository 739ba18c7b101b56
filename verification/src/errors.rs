use vstd::prelude::*;

verus! {

/// Errors surfaced by the boot-image codec and its file-level operations.
///
/// Magic mismatch is a hard error; per-field anomalies never abort a load.
#[derive(Debug, Clone)]
pub enum AbootCrafterError {
    /// The first eight bytes of the container are not the boot-image magic.
    InvalidMagic,
    /// A synthesis operation was asked for a header version outside 0..=4.
    UnsupportedVersion,
    /// The byte source ended before the full header of the detected version.
    TruncatedHeader,
    /// An underlying read, seek, write or open failure, reported by the caller.
    IoError(String),
    /// A request that the header's own fields cannot satisfy.
    ConfigError(String),
}

impl AbootCrafterError {
    /// A short stable label for the error, one per variant.
    pub fn label(&self) -> (r: &'static str)
        ensures
            (self is InvalidMagic) ==> r@ == "invalid magic"@,
            (self is UnsupportedVersion) ==> r@ == "unsupported version"@,
            (self is TruncatedHeader) ==> r@ == "truncated header"@,
            (self is IoError) ==> r@ == "io error"@,
            (self is ConfigError) ==> r@ == "config error"@,
    {
        match self {
            AbootCrafterError::InvalidMagic => "invalid magic",
            AbootCrafterError::UnsupportedVersion => "unsupported version",
            AbootCrafterError::TruncatedHeader => "truncated header",
            AbootCrafterError::IoError(_) => "io error",
            AbootCrafterError::ConfigError(_) => "config error",
        }
    }
}

} // verus!
