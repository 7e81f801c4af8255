//! The protocol's error taxonomy.

use vstd::prelude::*;

verus! {

/// Everything that can go wrong while encoding or decoding protocol
/// messages.
///
/// Unknown *top-level* TLV tags are not errors: the decoder skips past
/// their declared length and continues.
#[derive(Clone, Copy, Debug, PartialEq, Eq, Structural)]
pub enum ProtocolError {
    /// A filter parameter was rejected: the quality factor compares
    /// less than or equal to zero.  Raised at filter construction and
    /// again on the encode path, before any byte is emitted.
    InvalidParameter,
    /// A filter record carried a discriminant outside the known range.
    /// Fatal to the filter-chain decode; the offending value is kept.
    UnknownFilterType(u8),
    /// A length or position mismatch inside a container TLV: an inner
    /// envelope that overruns its container, or a filter chain whose
    /// records do not add up exactly to the declared payload length.
    MalformedPayload,
    /// The buffer ended before a declared length was satisfied.
    TruncatedMessage,
}

} // verus!
