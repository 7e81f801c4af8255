//! The envelope codec: the type-length-value primitive under every
//! message of the protocol.
//!
//! An envelope is a `u16` tag, a `u16` total length that counts its own
//! four header bytes, and the payload.  Payloads of container envelopes
//! hold further envelopes back to back.

use vstd::prelude::*;

use crate::errors::ProtocolError;
use crate::wire::{
    lemma_u16_le_bytes_inverse, push_u16_le, read_u16_le, u16_le_bytes, u16_of_le,
};

verus! {

/// Byte image of one envelope: tag, total length `4 + payload.len()`,
/// then the payload, with both header words little-endian.
pub open spec fn tlv_bytes(tag: u16, payload: Seq<u8>) -> Seq<u8>
    recommends
        payload.len() + 4 <= 65535,
{
    u16_le_bytes(tag) + u16_le_bytes((payload.len() + 4) as u16) + payload
}

/// What reading one envelope out of `bytes` at `pos` yields: the tag,
/// the payload, and the position of the next header.  The buffer must
/// cover the header and then the declared length; a declared length
/// under the header's own four bytes is malformed.
pub open spec fn spec_decode_envelope(bytes: Seq<u8>, pos: int) -> Result<
    (u16, Seq<u8>, int),
    ProtocolError,
> {
    if pos + 4 > bytes.len() {
        Err(ProtocolError::TruncatedMessage)
    } else {
        let tag = u16_of_le(bytes[pos], bytes[pos + 1]);
        let total = u16_of_le(bytes[pos + 2], bytes[pos + 3]) as int;
        if total < 4 {
            Err(ProtocolError::MalformedPayload)
        } else if pos + total > bytes.len() {
            Err(ProtocolError::TruncatedMessage)
        } else {
            Ok((tag, bytes.subrange(pos + 4, pos + total), pos + total))
        }
    }
}

/// One type-length-value message.
///
/// Invariant: the total length written on the wire is `4 + payload.len()`
/// and must fit the header's `u16` length field.
#[derive(Debug, Clone, PartialEq, Eq)]
pub struct Envelope {
    pub tag: u16,
    pub payload: Vec<u8>,
}

impl Envelope {
    /// The payload leaves room for the four header bytes within the
    /// `u16` total length.
    pub open spec fn wf(&self) -> bool {
        self.payload@.len() + 4 <= 65535
    }

    /// The envelope's byte image.
    pub open spec fn encoding(&self) -> Seq<u8> {
        tlv_bytes(self.tag, self.payload@)
    }

    /// Writes the envelope: tag, header-inclusive total length, payload.
    pub fn encode(&self) -> (r: Vec<u8>)
        requires
            self.wf(),
        ensures
            r@ == self.encoding(),
            r@.len() == 4 + self.payload@.len(),
    {
        let mut out: Vec<u8> = Vec::new();
        push_u16_le(&mut out, self.tag);
        push_u16_le(&mut out, (self.payload.len() + 4) as u16);
        append_bytes(&mut out, &self.payload);
        assert(out@ =~= self.encoding());
        out
    }
}

/// Reads one envelope out of `buf` at `pos`, copying its payload.
/// Returns the envelope and the position just past it.
pub fn decode_envelope(buf: &Vec<u8>, pos: usize) -> (r: Result<
    (Envelope, usize),
    ProtocolError,
>)
    requires
        pos <= buf.len(),
    ensures
        match r {
            Ok(p) => spec_decode_envelope(buf@, pos as int) == Ok::<_, ProtocolError>(
                (p.0.tag, p.0.payload@, p.1 as int),
            ) && p.0.wf(),
            Err(e) => spec_decode_envelope(buf@, pos as int) == Err::<(u16, Seq<u8>, int), _>(e),
        },
{
    if buf.len() - pos < 4 {
        return Err(ProtocolError::TruncatedMessage);
    }
    let tag = read_u16_le(buf, pos);
    let total = read_u16_le(buf, pos + 2) as usize;
    if total < 4 {
        return Err(ProtocolError::MalformedPayload);
    }
    if buf.len() - pos < total {
        return Err(ProtocolError::TruncatedMessage);
    }
    let payload = copy_range(buf, pos + 4, pos + total);
    Ok((Envelope { tag, payload }, pos + total))
}

/// The length an inbound message declares for itself, read from its
/// first header.  The transport owner reads until this many bytes have
/// arrived; this crate does no reading of its own.
pub fn declared_length(buf: &Vec<u8>) -> (r: Result<u16, ProtocolError>)
    ensures
        match r {
            Ok(l) => buf@.len() >= 4 && l == u16_of_le(buf@[2], buf@[3]),
            Err(e) => e == ProtocolError::TruncatedMessage && buf@.len() < 4,
        },
{
    if buf.len() < 4 {
        return Err(ProtocolError::TruncatedMessage);
    }
    Ok(read_u16_le(buf, 2))
}

/// Appends all of `src` to `dst`.
pub fn append_bytes(dst: &mut Vec<u8>, src: &Vec<u8>)
    ensures
        final(dst)@ == old(dst)@ + src@,
{
    let ghost dst0 = dst@;
    let mut i: usize = 0;
    while i < src.len()
        invariant
            i <= src.len(),
            dst@ == dst0 + src@.take(i as int),
        decreases src.len() - i,
    {
        dst.push(src[i]);
        assert(dst@ =~= dst0 + src@.take(i as int + 1));
        i += 1;
    }
    assert(dst@ =~= dst0 + src@);
}

/// Copies `buf[lo .. hi]` into a fresh vector.
pub fn copy_range(buf: &Vec<u8>, lo: usize, hi: usize) -> (r: Vec<u8>)
    requires
        lo <= hi <= buf.len(),
    ensures
        r@ == buf@.subrange(lo as int, hi as int),
{
    let mut out: Vec<u8> = Vec::new();
    let mut i: usize = lo;
    while i < hi
        invariant
            lo <= i <= hi <= buf.len(),
            out@ == buf@.subrange(lo as int, i as int),
        decreases hi - i,
    {
        out.push(buf[i]);
        assert(out@ =~= buf@.subrange(lo as int, i as int + 1));
        i += 1;
    }
    out
}

/// Where each part of an envelope's byte image lies, and that the two
/// header words read back as the tag and the total length.
pub proof fn lemma_tlv_bytes_parts(tag: u16, payload: Seq<u8>)
    requires
        payload.len() + 4 <= 65535,
    ensures
        tlv_bytes(tag, payload).len() == 4 + payload.len(),
        u16_of_le(tlv_bytes(tag, payload)[0], tlv_bytes(tag, payload)[1]) == tag,
        u16_of_le(tlv_bytes(tag, payload)[2], tlv_bytes(tag, payload)[3]) as int == 4
            + payload.len(),
        forall|k: int|
            4 <= k < 4 + payload.len() ==> #[trigger] tlv_bytes(tag, payload)[k] == payload[k - 4],
{
    let l16 = (payload.len() + 4) as u16;
    let tlv = tlv_bytes(tag, payload);
    assert(tlv[0] == u16_le_bytes(tag)[0]);
    assert(tlv[1] == u16_le_bytes(tag)[1]);
    assert(tlv[2] == u16_le_bytes(l16)[0]);
    assert(tlv[3] == u16_le_bytes(l16)[1]);
    lemma_u16_le_bytes_inverse(tag);
    lemma_u16_le_bytes_inverse(l16);
    assert forall|k: int| 4 <= k < 4 + payload.len() implies #[trigger] tlv[k]
        == payload[k - 4] by {}
}

/// Decoding starts over where encoding ended: an encoded envelope at the
/// head of a buffer reads back as its own tag and payload, whatever
/// bytes follow it.
pub proof fn lemma_envelope_round_trip(tag: u16, payload: Seq<u8>, rest: Seq<u8>)
    requires
        payload.len() + 4 <= 65535,
    ensures
        spec_decode_envelope(tlv_bytes(tag, payload) + rest, 0) == Ok::<_, ProtocolError>(
            (tag, payload, 4 + payload.len() as int),
        ),
{
    let total16 = (payload.len() + 4) as u16;
    let bytes = tlv_bytes(tag, payload) + rest;
    assert(bytes[0] == u16_le_bytes(tag)[0]);
    assert(bytes[1] == u16_le_bytes(tag)[1]);
    assert(bytes[2] == u16_le_bytes(total16)[0]);
    assert(bytes[3] == u16_le_bytes(total16)[1]);
    lemma_u16_le_bytes_inverse(tag);
    lemma_u16_le_bytes_inverse(total16);
    assert(total16 as int == payload.len() + 4);
    assert(bytes.subrange(4, 4 + payload.len() as int) =~= payload);
}

} // verus!
