//! The version report a device sends back to `GetVersion`.
//!
//! The report arrives as a response envelope holding a version-status
//! envelope: two version words, four reserved bytes, then two
//! zero-terminated byte strings naming the firmware build and the SDK
//! it was built with.  Mirroring the device protocol, neither header is
//! inspected here; the fixed offsets carry the data.  The two names are
//! kept as raw bytes — rendering them as text is the caller's concern.

use vstd::prelude::*;

use crate::errors::ProtocolError;
use crate::wire::{read_u16_le, u16_of_le};

verus! {

/// A device's version report.
#[derive(Debug, Clone, PartialEq, Eq)]
pub struct VersionInfo {
    /// Configuration version the firmware speaks.
    pub current_version: u16,
    /// Oldest configuration version the firmware still accepts.
    pub minimum_supported_version: u16,
    /// Build identifier, raw bytes, terminator excluded.
    pub git_hash: Vec<u8>,
    /// SDK identifier, raw bytes, terminator excluded.
    pub pico_sdk_version: Vec<u8>,
}

/// Mathematical image of a [`VersionInfo`].
#[verifier::ext_equal]
pub struct VersionInfoModel {
    pub current_version: u16,
    pub minimum_supported_version: u16,
    pub git_hash: Seq<u8>,
    pub pico_sdk_version: Seq<u8>,
}

impl View for VersionInfo {
    type V = VersionInfoModel;

    open spec fn view(&self) -> VersionInfoModel {
        VersionInfoModel {
            current_version: self.current_version,
            minimum_supported_version: self.minimum_supported_version,
            git_hash: self.git_hash@,
            pico_sdk_version: self.pico_sdk_version@,
        }
    }
}

/// Index of the first zero byte at or after `pos`, or the buffer's
/// length when there is none.
pub open spec fn find_zero(bytes: Seq<u8>, pos: int) -> int
    recommends
        0 <= pos <= bytes.len(),
    decreases bytes.len() - pos,
{
    if pos < 0 || pos >= bytes.len() {
        bytes.len() as int
    } else if bytes[pos] == 0 {
        pos
    } else {
        find_zero(bytes, pos + 1)
    }
}

/// What decoding a version report yields.  The buffer must reach the
/// fixed fields and hold both terminators; anything shorter is a
/// truncation.
pub open spec fn spec_decode_version(bytes: Seq<u8>) -> Result<VersionInfoModel, ProtocolError> {
    if bytes.len() < 16 {
        Err(ProtocolError::TruncatedMessage)
    } else {
        let z1 = find_zero(bytes, 16);
        if z1 >= bytes.len() {
            Err(ProtocolError::TruncatedMessage)
        } else {
            let z2 = find_zero(bytes, z1 + 1);
            if z2 >= bytes.len() {
                Err(ProtocolError::TruncatedMessage)
            } else {
                Ok(
                    VersionInfoModel {
                        current_version: u16_of_le(bytes[8], bytes[9]),
                        minimum_supported_version: u16_of_le(bytes[10], bytes[11]),
                        git_hash: bytes.subrange(16, z1),
                        pico_sdk_version: bytes.subrange(z1 + 1, z2),
                    },
                )
            }
        }
    }
}

/// Finds the first zero byte at or after `from`.
fn scan_zero(buf: &Vec<u8>, from: usize) -> (r: usize)
    requires
        from <= buf.len(),
    ensures
        r as int == find_zero(buf@, from as int),
        from <= r <= buf.len(),
{
    let mut i = from;
    while i < buf.len()
        invariant
            from <= i <= buf.len(),
            find_zero(buf@, from as int) == find_zero(buf@, i as int),
        decreases buf.len() - i,
    {
        if buf[i] == 0 {
            return i;
        }
        i += 1;
    }
    i
}

impl VersionInfo {
    /// Reads a version report out of a response buffer.
    pub fn from_buf(buf: &Vec<u8>) -> (r: Result<VersionInfo, ProtocolError>)
        ensures
            match r {
                Ok(v) => spec_decode_version(buf@) == Ok::<_, ProtocolError>(v@),
                Err(e) => spec_decode_version(buf@) == Err::<VersionInfoModel, _>(e),
            },
    {
        if buf.len() < 16 {
            return Err(ProtocolError::TruncatedMessage);
        }
        let current_version = read_u16_le(buf, 8);
        let minimum_supported_version = read_u16_le(buf, 10);
        let z1 = scan_zero(buf, 16);
        if z1 >= buf.len() {
            return Err(ProtocolError::TruncatedMessage);
        }
        let z2 = scan_zero(buf, z1 + 1);
        if z2 >= buf.len() {
            return Err(ProtocolError::TruncatedMessage);
        }
        let git_hash = crate::envelope::copy_range(buf, 16, z1);
        let pico_sdk_version = crate::envelope::copy_range(buf, z1 + 1, z2);
        let v = VersionInfo { current_version, minimum_supported_version, git_hash, pico_sdk_version };
        Ok(v)
    }
}

} // verus!
