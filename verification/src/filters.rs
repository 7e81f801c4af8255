//! The filter model and its wire records.
//!
//! Ten filter kinds share one record layout: a one-byte discriminant,
//! three reserved zero bytes, then the kind's fields, little-endian.
//! Six kinds carry frequency and quality, three carry frequency, gain
//! and quality (gain precedes quality on the wire), and one carries six
//! raw double-precision biquad coefficients.
//!
//! Fractional fields are stored as IEEE 754 bit patterns (`u32` for
//! single precision, `u64` for double precision), exactly as they
//! travel on the wire.

use vstd::prelude::*;

use crate::envelope::append_bytes;
use crate::errors::ProtocolError;
use crate::wire::{
    u32_le_bytes, u32_of_le, u64_le_bytes, u64_of_le, push_u32_le, push_u64_le, read_u32_le,
    read_u64_le,
};

verus! {

/// Bit patterns of single-precision values that pass the quality check.
///
/// A quality factor is rejected exactly when its value compares less
/// than or equal to zero: both zeroes, the negative finite values and
/// negative infinity.  NaN patterns compare neither way and are let
/// through, as a comparison against zero would let them through.
pub open spec fn quality_accepted(q_bits: u32) -> bool {
    !(q_bits == 0 || (0x8000_0000 <= q_bits && q_bits <= 0xff80_0000))
}

/// Runtime form of [`quality_accepted`].
pub fn quality_is_accepted(q_bits: u32) -> (r: bool)
    ensures
        r == quality_accepted(q_bits),
{
    !(q_bits == 0 || (0x8000_0000 <= q_bits && q_bits <= 0xff80_0000))
}

/// Anything with a parameter check.
pub trait Validate {
    /// Whether the parameters are acceptable.
    spec fn spec_valid(&self) -> bool;

    /// Checks the parameters; rejection is always `InvalidParameter`.
    fn validate(&self) -> (r: Result<(), ProtocolError>)
        ensures
            r == if self.spec_valid() {
                Ok::<(), ProtocolError>(())
            } else {
                Err::<(), ProtocolError>(ProtocolError::InvalidParameter)
            },
    ;
}

/// Anything whose field block has a fixed little-endian byte image.
pub trait StructuralPayload {
    /// The byte image of the fields, without discriminant or padding.
    spec fn fields_encoding(&self) -> Seq<u8>;

    /// Writes the field block.
    fn to_structural_payload(&self) -> (r: Vec<u8>)
        ensures
            r@ == self.fields_encoding(),
    ;
}

/// Anything whose field block can be read back out of a buffer.
pub trait DeserializeFilter: Sized {
    /// Bytes the field block occupies on the wire.
    spec fn fields_wire_len() -> int;

    /// The value read from a field block, with its parameter check.
    spec fn spec_from_bytes(fields: Seq<u8>) -> Result<Self, ProtocolError>;

    /// Reads the field block that starts at `pos`.
    fn from_bytes(buf: &Vec<u8>, pos: usize) -> (r: Result<Self, ProtocolError>)
        requires
            pos + Self::fields_wire_len() <= buf.len(),
        ensures
            r == Self::spec_from_bytes(
                buf@.subrange(pos as int, pos as int + Self::fields_wire_len()),
            ),
    ;
}

/// Anything that encodes to a complete payload, with validation done
/// before any byte is produced.
pub trait Payload {
    /// The payload's byte image.
    spec fn payload_encoding(&self) -> Seq<u8>;

    /// Whether every parameter that would be written is acceptable.
    spec fn payload_valid(&self) -> bool;

    /// Writes the payload, or rejects it whole.
    fn to_payload(&self) -> (r: Result<Vec<u8>, ProtocolError>)
        ensures
            match r {
                Ok(v) => self.payload_valid() && v@ == self.payload_encoding(),
                Err(e) => !self.payload_valid() && e == ProtocolError::InvalidParameter,
            },
    ;
}

/// Fields of the frequency+quality family: cutoff frequency and quality
/// factor, both single-precision bit patterns.
#[derive(Clone, Copy, Debug, PartialEq, Eq, Structural)]
pub struct FreqQualFilter {
    pub f0_bits: u32,
    pub q_bits: u32,
}

/// Fields of the frequency+gain+quality family.  In memory the quality
/// factor follows the frequency; on the wire the gain stands between
/// them.
#[derive(Clone, Copy, Debug, PartialEq, Eq, Structural)]
pub struct FreqGainQualFilter {
    pub f0_bits: u32,
    pub q_bits: u32,
    pub db_gain_bits: u32,
}

/// Six raw biquad coefficients, double-precision bit patterns.  No
/// stability check is performed on them.
#[derive(Clone, Copy, Debug, PartialEq, Eq, Structural)]
pub struct CustomIIRFilter {
    pub a0_bits: u64,
    pub a1_bits: u64,
    pub a2_bits: u64,
    pub b0_bits: u64,
    pub b1_bits: u64,
    pub b2_bits: u64,
}

impl FreqQualFilter {
    /// Builds the field pair, rejecting a quality factor that compares
    /// less than or equal to zero.
    pub fn new(f0_bits: u32, q_bits: u32) -> (r: Result<Self, ProtocolError>)
        ensures
            r == if quality_accepted(q_bits) {
                Ok::<Self, ProtocolError>(FreqQualFilter { f0_bits, q_bits })
            } else {
                Err::<Self, ProtocolError>(ProtocolError::InvalidParameter)
            },
    {
        if !quality_is_accepted(q_bits) {
            return Err(ProtocolError::InvalidParameter);
        }
        Ok(FreqQualFilter { f0_bits, q_bits })
    }
}

impl FreqGainQualFilter {
    /// Builds the field triple, rejecting a quality factor that
    /// compares less than or equal to zero.
    pub fn new(f0_bits: u32, q_bits: u32, db_gain_bits: u32) -> (r: Result<Self, ProtocolError>)
        ensures
            r == if quality_accepted(q_bits) {
                Ok::<Self, ProtocolError>(FreqGainQualFilter { f0_bits, q_bits, db_gain_bits })
            } else {
                Err::<Self, ProtocolError>(ProtocolError::InvalidParameter)
            },
    {
        if !quality_is_accepted(q_bits) {
            return Err(ProtocolError::InvalidParameter);
        }
        Ok(FreqGainQualFilter { f0_bits, q_bits, db_gain_bits })
    }
}

impl CustomIIRFilter {
    /// Builds the coefficient block; every pattern is accepted.
    pub fn new(a0_bits: u64, a1_bits: u64, a2_bits: u64, b0_bits: u64, b1_bits: u64, b2_bits: u64)
        -> (r: Self)
        ensures
            r == (CustomIIRFilter { a0_bits, a1_bits, a2_bits, b0_bits, b1_bits, b2_bits }),
    {
        CustomIIRFilter { a0_bits, a1_bits, a2_bits, b0_bits, b1_bits, b2_bits }
    }
}

impl Validate for FreqQualFilter {
    open spec fn spec_valid(&self) -> bool {
        quality_accepted(self.q_bits)
    }

    fn validate(&self) -> (r: Result<(), ProtocolError>) {
        if quality_is_accepted(self.q_bits) {
            Ok(())
        } else {
            Err(ProtocolError::InvalidParameter)
        }
    }
}

impl Validate for FreqGainQualFilter {
    open spec fn spec_valid(&self) -> bool {
        quality_accepted(self.q_bits)
    }

    fn validate(&self) -> (r: Result<(), ProtocolError>) {
        if quality_is_accepted(self.q_bits) {
            Ok(())
        } else {
            Err(ProtocolError::InvalidParameter)
        }
    }
}

impl Validate for CustomIIRFilter {
    open spec fn spec_valid(&self) -> bool {
        true
    }

    fn validate(&self) -> (r: Result<(), ProtocolError>) {
        Ok(())
    }
}

impl StructuralPayload for FreqQualFilter {
    open spec fn fields_encoding(&self) -> Seq<u8> {
        u32_le_bytes(self.f0_bits) + u32_le_bytes(self.q_bits)
    }

    fn to_structural_payload(&self) -> (r: Vec<u8>) {
        let mut out: Vec<u8> = Vec::new();
        push_u32_le(&mut out, self.f0_bits);
        push_u32_le(&mut out, self.q_bits);
        out
    }
}

impl StructuralPayload for FreqGainQualFilter {
    open spec fn fields_encoding(&self) -> Seq<u8> {
        u32_le_bytes(self.f0_bits) + u32_le_bytes(self.db_gain_bits) + u32_le_bytes(self.q_bits)
    }

    fn to_structural_payload(&self) -> (r: Vec<u8>) {
        let mut out: Vec<u8> = Vec::new();
        push_u32_le(&mut out, self.f0_bits);
        push_u32_le(&mut out, self.db_gain_bits);
        push_u32_le(&mut out, self.q_bits);
        out
    }
}

impl StructuralPayload for CustomIIRFilter {
    open spec fn fields_encoding(&self) -> Seq<u8> {
        u64_le_bytes(self.a0_bits) + u64_le_bytes(self.a1_bits) + u64_le_bytes(self.a2_bits)
            + u64_le_bytes(self.b0_bits) + u64_le_bytes(self.b1_bits) + u64_le_bytes(self.b2_bits)
    }

    fn to_structural_payload(&self) -> (r: Vec<u8>) {
        let mut out: Vec<u8> = Vec::new();
        push_u64_le(&mut out, self.a0_bits);
        push_u64_le(&mut out, self.a1_bits);
        push_u64_le(&mut out, self.a2_bits);
        push_u64_le(&mut out, self.b0_bits);
        push_u64_le(&mut out, self.b1_bits);
        push_u64_le(&mut out, self.b2_bits);
        out
    }
}

/// One filter, tagged with its kind.  The wire discriminants are 0
/// through 9, in the order the variants are written here.
#[derive(Clone, Copy, Debug, PartialEq, Eq, Structural)]
pub enum FilterConfig {
    Lowpass(FreqQualFilter),
    Highpass(FreqQualFilter),
    BandpassSkirt(FreqQualFilter),
    BandpassPeak(FreqQualFilter),
    Notch(FreqQualFilter),
    Allpass(FreqQualFilter),
    Peaking(FreqGainQualFilter),
    LowShelf(FreqGainQualFilter),
    HighShelf(FreqGainQualFilter),
    CustomIIR(CustomIIRFilter),
}

impl FilterConfig {
    /// The kind's fixed wire discriminant.
    pub open spec fn spec_discriminant(self) -> u8 {
        match self {
            FilterConfig::Lowpass(_) => 0,
            FilterConfig::Highpass(_) => 1,
            FilterConfig::BandpassSkirt(_) => 2,
            FilterConfig::BandpassPeak(_) => 3,
            FilterConfig::Notch(_) => 4,
            FilterConfig::Allpass(_) => 5,
            FilterConfig::Peaking(_) => 6,
            FilterConfig::LowShelf(_) => 7,
            FilterConfig::HighShelf(_) => 8,
            FilterConfig::CustomIIR(_) => 9,
        }
    }

    /// Runtime form of [`Self::spec_discriminant`].
    pub fn discriminant(&self) -> (r: u8)
        ensures
            r == self.spec_discriminant(),
    {
        match self {
            FilterConfig::Lowpass(_) => 0,
            FilterConfig::Highpass(_) => 1,
            FilterConfig::BandpassSkirt(_) => 2,
            FilterConfig::BandpassPeak(_) => 3,
            FilterConfig::Notch(_) => 4,
            FilterConfig::Allpass(_) => 5,
            FilterConfig::Peaking(_) => 6,
            FilterConfig::LowShelf(_) => 7,
            FilterConfig::HighShelf(_) => 8,
            FilterConfig::CustomIIR(_) => 9,
        }
    }
}

/// Byte image of a filter's field block, after discriminant and
/// padding.
pub open spec fn record_fields(f: FilterConfig) -> Seq<u8> {
    match f {
        FilterConfig::Lowpass(x) => x.fields_encoding(),
        FilterConfig::Highpass(x) => x.fields_encoding(),
        FilterConfig::BandpassSkirt(x) => x.fields_encoding(),
        FilterConfig::BandpassPeak(x) => x.fields_encoding(),
        FilterConfig::Notch(x) => x.fields_encoding(),
        FilterConfig::Allpass(x) => x.fields_encoding(),
        FilterConfig::Peaking(x) => x.fields_encoding(),
        FilterConfig::LowShelf(x) => x.fields_encoding(),
        FilterConfig::HighShelf(x) => x.fields_encoding(),
        FilterConfig::CustomIIR(x) => x.fields_encoding(),
    }
}

/// Byte image of a complete filter record: discriminant, three reserved
/// zero bytes, field block.
pub open spec fn record_bytes(f: FilterConfig) -> Seq<u8> {
    seq![f.spec_discriminant(), 0u8, 0u8, 0u8] + record_fields(f)
}

/// Total record size per family: 12, 16 or 52 bytes.
pub open spec fn record_len(f: FilterConfig) -> int {
    match f {
        FilterConfig::Lowpass(_) => 12,
        FilterConfig::Highpass(_) => 12,
        FilterConfig::BandpassSkirt(_) => 12,
        FilterConfig::BandpassPeak(_) => 12,
        FilterConfig::Notch(_) => 12,
        FilterConfig::Allpass(_) => 12,
        FilterConfig::Peaking(_) => 16,
        FilterConfig::LowShelf(_) => 16,
        FilterConfig::HighShelf(_) => 16,
        FilterConfig::CustomIIR(_) => 52,
    }
}

/// A record is exactly as long as its family says.
pub proof fn lemma_record_bytes_len(f: FilterConfig)
    ensures
        record_bytes(f).len() == record_len(f),
{
}

impl Validate for FilterConfig {
    open spec fn spec_valid(&self) -> bool {
        match *self {
            FilterConfig::Lowpass(x) => x.spec_valid(),
            FilterConfig::Highpass(x) => x.spec_valid(),
            FilterConfig::BandpassSkirt(x) => x.spec_valid(),
            FilterConfig::BandpassPeak(x) => x.spec_valid(),
            FilterConfig::Notch(x) => x.spec_valid(),
            FilterConfig::Allpass(x) => x.spec_valid(),
            FilterConfig::Peaking(x) => x.spec_valid(),
            FilterConfig::LowShelf(x) => x.spec_valid(),
            FilterConfig::HighShelf(x) => x.spec_valid(),
            FilterConfig::CustomIIR(x) => x.spec_valid(),
        }
    }

    fn validate(&self) -> (r: Result<(), ProtocolError>) {
        match self {
            FilterConfig::Lowpass(x) => x.validate(),
            FilterConfig::Highpass(x) => x.validate(),
            FilterConfig::BandpassSkirt(x) => x.validate(),
            FilterConfig::BandpassPeak(x) => x.validate(),
            FilterConfig::Notch(x) => x.validate(),
            FilterConfig::Allpass(x) => x.validate(),
            FilterConfig::Peaking(x) => x.validate(),
            FilterConfig::LowShelf(x) => x.validate(),
            FilterConfig::HighShelf(x) => x.validate(),
            FilterConfig::CustomIIR(x) => x.validate(),
        }
    }
}

impl Payload for FilterConfig {
    open spec fn payload_encoding(&self) -> Seq<u8> {
        record_bytes(*self)
    }

    open spec fn payload_valid(&self) -> bool {
        self.spec_valid()
    }

    fn to_payload(&self) -> (r: Result<Vec<u8>, ProtocolError>) {
        if let Err(e) = self.validate() {
            return Err(e);
        }
        let mut out: Vec<u8> = Vec::new();
        out.push(self.discriminant());
        out.push(0);
        out.push(0);
        out.push(0);
        let fields = match self {
            FilterConfig::Lowpass(x) => x.to_structural_payload(),
            FilterConfig::Highpass(x) => x.to_structural_payload(),
            FilterConfig::BandpassSkirt(x) => x.to_structural_payload(),
            FilterConfig::BandpassPeak(x) => x.to_structural_payload(),
            FilterConfig::Notch(x) => x.to_structural_payload(),
            FilterConfig::Allpass(x) => x.to_structural_payload(),
            FilterConfig::Peaking(x) => x.to_structural_payload(),
            FilterConfig::LowShelf(x) => x.to_structural_payload(),
            FilterConfig::HighShelf(x) => x.to_structural_payload(),
            FilterConfig::CustomIIR(x) => x.to_structural_payload(),
        };
        assert(fields@ == record_fields(*self));
        append_bytes(&mut out, &fields);
        assert(out@ =~= record_bytes(*self));
        Ok(out)
    }
}

/// One slot of the filter chain: a filter and whether it is switched
/// on.  Disabled slots are kept in memory but never encoded.
#[derive(Clone, Copy, Debug, PartialEq, Eq, Structural)]
pub struct SavedFilter {
    pub enabled: bool,
    pub filter: FilterConfig,
}

impl SavedFilter {
    pub fn new(enabled: bool, filter: FilterConfig) -> (r: Self)
        ensures
            r == (SavedFilter { enabled, filter }),
    {
        SavedFilter { enabled, filter }
    }
}

/// Payload of the filter-configuration envelope: the records of the
/// enabled slots, in chain order, back to back.
pub open spec fn chain_payload(chain: Seq<SavedFilter>) -> Seq<u8>
    decreases chain.len(),
{
    if chain.len() == 0 {
        Seq::empty()
    } else {
        (if chain.first().enabled {
            record_bytes(chain.first().filter)
        } else {
            Seq::empty()
        }) + chain_payload(chain.drop_first())
    }
}

/// Every enabled slot holds acceptable parameters; this is what the
/// encode path demands.
pub open spec fn chain_wire_valid(chain: Seq<SavedFilter>) -> bool {
    forall|i: int|
        0 <= i < chain.len() ==> (chain[i].enabled ==> chain[i].filter.spec_valid())
}

/// Every slot holds acceptable parameters, enabled or not.
pub open spec fn chain_all_valid(chain: Seq<SavedFilter>) -> bool {
    forall|i: int| 0 <= i < chain.len() ==> chain[i].filter.spec_valid()
}

/// The enabled slots, in order.
pub open spec fn enabled_only(chain: Seq<SavedFilter>) -> Seq<SavedFilter>
    decreases chain.len(),
{
    if chain.len() == 0 {
        Seq::empty()
    } else {
        (if chain.first().enabled {
            seq![chain.first()]
        } else {
            Seq::empty()
        }) + enabled_only(chain.drop_first())
    }
}

/// Appending a slot appends its record — or nothing, when the slot is
/// disabled.
pub proof fn lemma_chain_payload_push(chain: Seq<SavedFilter>, f: SavedFilter)
    ensures
        chain_payload(chain.push(f)) == chain_payload(chain) + (if f.enabled {
            record_bytes(f.filter)
        } else {
            Seq::<u8>::empty()
        }),
    decreases chain.len(),
{
    let tail = if f.enabled {
        record_bytes(f.filter)
    } else {
        Seq::<u8>::empty()
    };
    if chain.len() == 0 {
        assert(chain.push(f).drop_first() =~= Seq::<SavedFilter>::empty());
        assert(chain.push(f).first() == f);
        assert(chain_payload(chain) == Seq::<u8>::empty());
        assert(chain_payload(chain.push(f).drop_first()) == Seq::<u8>::empty());
        assert(chain_payload(chain.push(f)) == tail + chain_payload(chain.push(f).drop_first()));
        assert(tail + Seq::<u8>::empty() =~= Seq::<u8>::empty() + tail);
    } else {
        let head = if chain.first().enabled {
            record_bytes(chain.first().filter)
        } else {
            Seq::<u8>::empty()
        };
        assert(chain.push(f).first() == chain.first());
        assert(chain.push(f).drop_first() =~= chain.drop_first().push(f));
        lemma_chain_payload_push(chain.drop_first(), f);
        assert(chain_payload(chain.push(f)) == head + (chain_payload(chain.drop_first()) + tail));
        assert(chain_payload(chain) == head + chain_payload(chain.drop_first()));
        assert(head + (chain_payload(chain.drop_first()) + tail) =~= (head + chain_payload(
            chain.drop_first(),
        )) + tail);
    }
}

/// The ordered chain of filter slots.
#[derive(Debug, Clone, PartialEq, Eq)]
pub struct Filters(pub Vec<SavedFilter>);

impl View for Filters {
    type V = Seq<SavedFilter>;

    open spec fn view(&self) -> Seq<SavedFilter> {
        self.0@
    }
}

impl Default for Filters {
    /// The empty chain.
    fn default() -> (r: Self)
        ensures
            r@ == Seq::<SavedFilter>::empty(),
    {
        Filters(Vec::new())
    }
}

impl Filters {
    /// Appends a slot to the chain.
    pub fn add(&mut self, filter: FilterConfig, enabled: bool)
        ensures
            final(self)@ == old(self)@.push(SavedFilter { enabled, filter }),
    {
        self.0.push(SavedFilter { enabled, filter });
    }
}

impl Validate for Filters {
    open spec fn spec_valid(&self) -> bool {
        chain_all_valid(self@)
    }

    fn validate(&self) -> (r: Result<(), ProtocolError>) {
        let mut i: usize = 0;
        while i < self.0.len()
            invariant
                i <= self.0.len(),
                forall|j: int| 0 <= j < i ==> self.0@[j].filter.spec_valid(),
            decreases self.0.len() - i,
        {
            if let Err(e) = self.0[i].filter.validate() {
                return Err(e);
            }
            i += 1;
        }
        Ok(())
    }
}

impl Payload for Filters {
    open spec fn payload_encoding(&self) -> Seq<u8> {
        chain_payload(self@)
    }

    open spec fn payload_valid(&self) -> bool {
        chain_wire_valid(self@)
    }

    #[verifier::spinoff_prover]
    #[verifier::rlimit(60)]
    fn to_payload(&self) -> (r: Result<Vec<u8>, ProtocolError>) {
        let mut out: Vec<u8> = Vec::new();
        let mut i: usize = 0;
        while i < self.0.len()
            invariant
                i <= self.0.len(),
                forall|j: int|
                    0 <= j < i ==> (self.0@[j].enabled ==> self.0@[j].filter.spec_valid()),
                out@ == chain_payload(self.0@.take(i as int)),
            decreases self.0.len() - i,
        {
            let slot = self.0[i];
            if slot.enabled {
                match slot.filter.to_payload() {
                    Ok(rec) => {
                        append_bytes(&mut out, &rec);
                    },
                    Err(e) => {
                        assert(!self.payload_valid());
                        return Err(e);
                    },
                }
            }
            proof {
                lemma_chain_payload_push(self.0@.take(i as int), self.0@[i as int]);
                assert(self.0@.take(i as int).push(self.0@[i as int]) =~= self.0@.take(
                    i as int + 1,
                ));
            }
            i += 1;
        }
        assert(self.0@.take(i as int) =~= self.0@);
        Ok(out)
    }
}

impl DeserializeFilter for FreqQualFilter {
    open spec fn fields_wire_len() -> int {
        8
    }

    open spec fn spec_from_bytes(fields: Seq<u8>) -> Result<Self, ProtocolError> {
        let f0 = u32_of_le(fields[0], fields[1], fields[2], fields[3]);
        let q = u32_of_le(fields[4], fields[5], fields[6], fields[7]);
        if quality_accepted(q) {
            Ok(FreqQualFilter { f0_bits: f0, q_bits: q })
        } else {
            Err(ProtocolError::InvalidParameter)
        }
    }

    fn from_bytes(buf: &Vec<u8>, pos: usize) -> (r: Result<Self, ProtocolError>) {
        let f0 = read_u32_le(buf, pos);
        let q = read_u32_le(buf, pos + 4);
        FreqQualFilter::new(f0, q)
    }
}

impl DeserializeFilter for FreqGainQualFilter {
    open spec fn fields_wire_len() -> int {
        12
    }

    open spec fn spec_from_bytes(fields: Seq<u8>) -> Result<Self, ProtocolError> {
        let f0 = u32_of_le(fields[0], fields[1], fields[2], fields[3]);
        let db_gain = u32_of_le(fields[4], fields[5], fields[6], fields[7]);
        let q = u32_of_le(fields[8], fields[9], fields[10], fields[11]);
        if quality_accepted(q) {
            Ok(FreqGainQualFilter { f0_bits: f0, q_bits: q, db_gain_bits: db_gain })
        } else {
            Err(ProtocolError::InvalidParameter)
        }
    }

    fn from_bytes(buf: &Vec<u8>, pos: usize) -> (r: Result<Self, ProtocolError>) {
        let f0 = read_u32_le(buf, pos);
        let db_gain = read_u32_le(buf, pos + 4);
        let q = read_u32_le(buf, pos + 8);
        FreqGainQualFilter::new(f0, q, db_gain)
    }
}

impl DeserializeFilter for CustomIIRFilter {
    open spec fn fields_wire_len() -> int {
        48
    }

    open spec fn spec_from_bytes(fields: Seq<u8>) -> Result<Self, ProtocolError> {
        Ok(
            CustomIIRFilter {
                a0_bits: u64_of_le(
                    fields[0], fields[1], fields[2], fields[3],
                    fields[4], fields[5], fields[6], fields[7],
                ),
                a1_bits: u64_of_le(
                    fields[8], fields[9], fields[10], fields[11],
                    fields[12], fields[13], fields[14], fields[15],
                ),
                a2_bits: u64_of_le(
                    fields[16], fields[17], fields[18], fields[19],
                    fields[20], fields[21], fields[22], fields[23],
                ),
                b0_bits: u64_of_le(
                    fields[24], fields[25], fields[26], fields[27],
                    fields[28], fields[29], fields[30], fields[31],
                ),
                b1_bits: u64_of_le(
                    fields[32], fields[33], fields[34], fields[35],
                    fields[36], fields[37], fields[38], fields[39],
                ),
                b2_bits: u64_of_le(
                    fields[40], fields[41], fields[42], fields[43],
                    fields[44], fields[45], fields[46], fields[47],
                ),
            },
        )
    }

    fn from_bytes(buf: &Vec<u8>, pos: usize) -> (r: Result<Self, ProtocolError>) {
        let a0 = read_u64_le(buf, pos);
        let a1 = read_u64_le(buf, pos + 8);
        let a2 = read_u64_le(buf, pos + 16);
        let b0 = read_u64_le(buf, pos + 24);
        let b1 = read_u64_le(buf, pos + 32);
        let b2 = read_u64_le(buf, pos + 40);
        Ok(CustomIIRFilter { a0_bits: a0, a1_bits: a1, a2_bits: a2, b0_bits: b0, b1_bits: b1, b2_bits: b2 })
    }
}

/// Bytes a family's field block occupies, by discriminant.
pub open spec fn family_fields_len(disc: u8) -> int
    recommends
        disc <= 9,
{
    if disc <= 5 {
        8
    } else if disc <= 8 {
        12
    } else {
        48
    }
}

/// The frequency+quality variant carrying discriminant `disc`.
pub open spec fn fq_variant(disc: u8, x: FreqQualFilter) -> FilterConfig
    recommends
        disc <= 5,
{
    if disc == 0 {
        FilterConfig::Lowpass(x)
    } else if disc == 1 {
        FilterConfig::Highpass(x)
    } else if disc == 2 {
        FilterConfig::BandpassSkirt(x)
    } else if disc == 3 {
        FilterConfig::BandpassPeak(x)
    } else if disc == 4 {
        FilterConfig::Notch(x)
    } else {
        FilterConfig::Allpass(x)
    }
}

/// The frequency+gain+quality variant carrying discriminant `disc`.
pub open spec fn fgq_variant(disc: u8, x: FreqGainQualFilter) -> FilterConfig
    recommends
        6 <= disc <= 8,
{
    if disc == 6 {
        FilterConfig::Peaking(x)
    } else if disc == 7 {
        FilterConfig::LowShelf(x)
    } else {
        FilterConfig::HighShelf(x)
    }
}

/// What reading one filter record at `pos`, bounded by `end`, yields:
/// the filter and the position just past its record.  A record that
/// would cross `end` is a length mismatch; an unknown discriminant is
/// fatal and keeps its value.
///
/// Kept opaque: its callers work from [`read_filter`]'s contract, and
/// unfolding the per-family field readers everywhere is costly.
#[verifier::opaque]
pub open spec fn spec_read_filter(bytes: Seq<u8>, pos: int, end: int) -> Result<
    (FilterConfig, int),
    ProtocolError,
>
    recommends
        0 <= pos <= end <= bytes.len(),
{
    if pos + 4 > end {
        Err(ProtocolError::MalformedPayload)
    } else {
        let disc = bytes[pos];
        if disc > 9 {
            Err(ProtocolError::UnknownFilterType(disc))
        } else if pos + 4 + family_fields_len(disc) > end {
            Err(ProtocolError::MalformedPayload)
        } else {
            let fields = bytes.subrange(pos + 4, pos + 4 + family_fields_len(disc));
            if disc <= 5 {
                match FreqQualFilter::spec_from_bytes(fields) {
                    Ok(x) => Ok((fq_variant(disc, x), pos + 12)),
                    Err(e) => Err(e),
                }
            } else if disc <= 8 {
                match FreqGainQualFilter::spec_from_bytes(fields) {
                    Ok(x) => Ok((fgq_variant(disc, x), pos + 16)),
                    Err(e) => Err(e),
                }
            } else {
                match CustomIIRFilter::spec_from_bytes(fields) {
                    Ok(x) => Ok((FilterConfig::CustomIIR(x), pos + 52)),
                    Err(e) => Err(e),
                }
            }
        }
    }
}

/// Runtime form of [`fq_variant`].
fn fq_config(disc: u8, x: FreqQualFilter) -> (r: FilterConfig)
    requires
        disc <= 5,
    ensures
        r == fq_variant(disc, x),
{
    if disc == 0 {
        FilterConfig::Lowpass(x)
    } else if disc == 1 {
        FilterConfig::Highpass(x)
    } else if disc == 2 {
        FilterConfig::BandpassSkirt(x)
    } else if disc == 3 {
        FilterConfig::BandpassPeak(x)
    } else if disc == 4 {
        FilterConfig::Notch(x)
    } else {
        FilterConfig::Allpass(x)
    }
}

/// Runtime form of [`fgq_variant`].
fn fgq_config(disc: u8, x: FreqGainQualFilter) -> (r: FilterConfig)
    requires
        6 <= disc <= 8,
    ensures
        r == fgq_variant(disc, x),
{
    if disc == 6 {
        FilterConfig::Peaking(x)
    } else if disc == 7 {
        FilterConfig::LowShelf(x)
    } else {
        FilterConfig::HighShelf(x)
    }
}

/// Reads one filter record: discriminant, three reserved bytes (whose
/// content is ignored), then the family's field block.
pub fn read_filter(buf: &Vec<u8>, pos: usize, end: usize) -> (r: Result<
    (FilterConfig, usize),
    ProtocolError,
>)
    requires
        pos <= end <= buf.len(),
    ensures
        match r {
            Ok(p) => spec_read_filter(buf@, pos as int, end as int) == Ok::<_, ProtocolError>(
                (p.0, p.1 as int),
            ) && pos < p.1 <= end,
            Err(e) => spec_read_filter(buf@, pos as int, end as int) == Err::<
                (FilterConfig, int),
                _,
            >(e),
        },
{
    proof {
        reveal(spec_read_filter);
    }
    if end - pos < 4 {
        return Err(ProtocolError::MalformedPayload);
    }
    let disc = buf[pos];
    if disc > 9 {
        return Err(ProtocolError::UnknownFilterType(disc));
    }
    if disc <= 5 {
        if end - pos < 12 {
            return Err(ProtocolError::MalformedPayload);
        }
        match FreqQualFilter::from_bytes(buf, pos + 4) {
            Ok(x) => Ok((fq_config(disc, x), pos + 12)),
            Err(e) => Err(e),
        }
    } else if disc <= 8 {
        if end - pos < 16 {
            return Err(ProtocolError::MalformedPayload);
        }
        match FreqGainQualFilter::from_bytes(buf, pos + 4) {
            Ok(x) => Ok((fgq_config(disc, x), pos + 16)),
            Err(e) => Err(e),
        }
    } else {
        if end - pos < 52 {
            return Err(ProtocolError::MalformedPayload);
        }
        match CustomIIRFilter::from_bytes(buf, pos + 4) {
            Ok(x) => Ok((FilterConfig::CustomIIR(x), pos + 52)),
            Err(e) => Err(e),
        }
    }
}

/// What reading records back to back from `pos` up to exactly `end`
/// yields.  Every record read arrives enabled; the chain must fill the
/// span exactly, or the read of the crossing record fails.
pub open spec fn spec_decode_filter_chain(bytes: Seq<u8>, pos: int, end: int) -> Result<
    Seq<SavedFilter>,
    ProtocolError,
>
    recommends
        0 <= pos <= end <= bytes.len(),
    decreases end - pos,
{
    if pos >= end {
        Ok(Seq::empty())
    } else {
        match spec_read_filter(bytes, pos, end) {
            Ok(p) => {
                if pos < p.1 <= end {
                    match spec_decode_filter_chain(bytes, p.1, end) {
                        Ok(rest) => Ok(
                            seq![SavedFilter { enabled: true, filter: p.0 }] + rest,
                        ),
                        Err(e) => Err(e),
                    }
                } else {
                    Err(ProtocolError::MalformedPayload)
                }
            },
            Err(e) => Err(e),
        }
    }
}

/// Reads filter records back to back from `pos` up to exactly `end`.
#[verifier::rlimit(60)]
pub fn decode_filter_chain(buf: &Vec<u8>, pos: usize, end: usize) -> (r: Result<
    Vec<SavedFilter>,
    ProtocolError,
>)
    requires
        pos <= end <= buf.len(),
    ensures
        match r {
            Ok(v) => spec_decode_filter_chain(buf@, pos as int, end as int)
                == Ok::<_, ProtocolError>(v@),
            Err(e) => spec_decode_filter_chain(buf@, pos as int, end as int) == Err::<
                Seq<SavedFilter>,
                _,
            >(e),
        },
{
    let ghost pos0 = pos as int;
    let mut out: Vec<SavedFilter> = Vec::new();
    let mut p = pos;
    while p < end
        invariant
            pos0 == pos as int,
            0 <= pos0 <= p as int,
            p <= end <= buf.len(),
            (match spec_decode_filter_chain(buf@, p as int, end as int) {
                Ok(rest) => spec_decode_filter_chain(buf@, pos0, end as int)
                    == Ok::<_, ProtocolError>(out@ + rest),
                Err(e) => spec_decode_filter_chain(buf@, pos0, end as int) == Err::<
                    Seq<SavedFilter>,
                    _,
                >(e),
            }),
        decreases end - p,
    {
        match read_filter(buf, p, end) {
            Ok(step) => {
                let (f, next) = step;
                proof {
                    let sf = SavedFilter { enabled: true, filter: f };
                    match spec_decode_filter_chain(buf@, next as int, end as int) {
                        Ok(rest) => {
                            assert(spec_decode_filter_chain(buf@, p as int, end as int)
                                == Ok::<_, ProtocolError>(seq![sf] + rest));
                            assert(out@.push(sf) + rest =~= out@ + (seq![sf] + rest));
                        },
                        Err(e2) => {
                            assert(spec_decode_filter_chain(buf@, p as int, end as int) == Err::<
                                Seq<SavedFilter>,
                                _,
                            >(e2));
                        },
                    }
                }
                out.push(SavedFilter { enabled: true, filter: f });
                p = next;
            },
            Err(e) => {
                proof {
                    assert(spec_decode_filter_chain(buf@, p as int, end as int) == Err::<
                        Seq<SavedFilter>,
                        ProtocolError,
                    >(e));
                }
                return Err(e);
            },
        }
    }
    assert(out@ + Seq::<SavedFilter>::empty() =~= out@);
    Ok(out)
}

/// A frequency+quality field block reads back as the value it was
/// written from, subject to the quality check.
proof fn lemma_fq_fields_round(x: FreqQualFilter)
    requires
        quality_accepted(x.q_bits),
    ensures
        FreqQualFilter::spec_from_bytes(x.fields_encoding()) == Ok::<_, ProtocolError>(x),
{
    let fields = x.fields_encoding();
    assert(fields[0] == u32_le_bytes(x.f0_bits)[0]);
    assert(fields[1] == u32_le_bytes(x.f0_bits)[1]);
    assert(fields[2] == u32_le_bytes(x.f0_bits)[2]);
    assert(fields[3] == u32_le_bytes(x.f0_bits)[3]);
    assert(fields[4] == u32_le_bytes(x.q_bits)[0]);
    assert(fields[5] == u32_le_bytes(x.q_bits)[1]);
    assert(fields[6] == u32_le_bytes(x.q_bits)[2]);
    assert(fields[7] == u32_le_bytes(x.q_bits)[3]);
    crate::wire::lemma_u32_le_bytes_inverse(x.f0_bits);
    crate::wire::lemma_u32_le_bytes_inverse(x.q_bits);
}

/// A frequency+gain+quality field block reads back as the value it was
/// written from, subject to the quality check.
proof fn lemma_fgq_fields_round(x: FreqGainQualFilter)
    requires
        quality_accepted(x.q_bits),
    ensures
        FreqGainQualFilter::spec_from_bytes(x.fields_encoding()) == Ok::<_, ProtocolError>(x),
{
    let fields = x.fields_encoding();
    assert(fields[0] == u32_le_bytes(x.f0_bits)[0]);
    assert(fields[1] == u32_le_bytes(x.f0_bits)[1]);
    assert(fields[2] == u32_le_bytes(x.f0_bits)[2]);
    assert(fields[3] == u32_le_bytes(x.f0_bits)[3]);
    assert(fields[4] == u32_le_bytes(x.db_gain_bits)[0]);
    assert(fields[5] == u32_le_bytes(x.db_gain_bits)[1]);
    assert(fields[6] == u32_le_bytes(x.db_gain_bits)[2]);
    assert(fields[7] == u32_le_bytes(x.db_gain_bits)[3]);
    assert(fields[8] == u32_le_bytes(x.q_bits)[0]);
    assert(fields[9] == u32_le_bytes(x.q_bits)[1]);
    assert(fields[10] == u32_le_bytes(x.q_bits)[2]);
    assert(fields[11] == u32_le_bytes(x.q_bits)[3]);
    crate::wire::lemma_u32_le_bytes_inverse(x.f0_bits);
    crate::wire::lemma_u32_le_bytes_inverse(x.db_gain_bits);
    crate::wire::lemma_u32_le_bytes_inverse(x.q_bits);
}

/// A coefficient field block reads back as the value it was written
/// from.
proof fn lemma_custom_fields_round(x: CustomIIRFilter)
    ensures
        CustomIIRFilter::spec_from_bytes(x.fields_encoding()) == Ok::<_, ProtocolError>(x),
{
    let fields = x.fields_encoding();
    assert forall|j: int| 0 <= j < 8 implies #[trigger] fields[j] == u64_le_bytes(x.a0_bits)[j]
        && fields[j + 8] == u64_le_bytes(x.a1_bits)[j]
        && fields[j + 16] == u64_le_bytes(x.a2_bits)[j]
        && fields[j + 24] == u64_le_bytes(x.b0_bits)[j]
        && fields[j + 32] == u64_le_bytes(x.b1_bits)[j]
        && fields[j + 40] == u64_le_bytes(x.b2_bits)[j] by {
        assert(fields[j] == u64_le_bytes(x.a0_bits)[j]);
        assert(fields[j + 8] == u64_le_bytes(x.a1_bits)[j]);
        assert(fields[j + 16] == u64_le_bytes(x.a2_bits)[j]);
        assert(fields[j + 24] == u64_le_bytes(x.b0_bits)[j]);
        assert(fields[j + 32] == u64_le_bytes(x.b1_bits)[j]);
        assert(fields[j + 40] == u64_le_bytes(x.b2_bits)[j]);
    }
    crate::wire::lemma_u64_le_bytes_inverse(x.a0_bits);
    crate::wire::lemma_u64_le_bytes_inverse(x.a1_bits);
    crate::wire::lemma_u64_le_bytes_inverse(x.a2_bits);
    crate::wire::lemma_u64_le_bytes_inverse(x.b0_bits);
    crate::wire::lemma_u64_le_bytes_inverse(x.b1_bits);
    crate::wire::lemma_u64_le_bytes_inverse(x.b2_bits);
}

/// A record written from a valid filter reads back as that filter,
/// leaving the cursor just past the record.
#[verifier::spinoff_prover]
#[verifier::rlimit(100)]
pub proof fn lemma_read_record(bytes: Seq<u8>, pos: int, end: int, f: FilterConfig)
    requires
        0 <= pos,
        pos + record_len(f) <= end <= bytes.len(),
        bytes.subrange(pos, pos + record_len(f)) == record_bytes(f),
        f.spec_valid(),
    ensures
        spec_read_filter(bytes, pos, end) == Ok::<_, ProtocolError>((f, pos + record_len(f))),
{
    reveal(spec_read_filter);
    let rl = record_len(f);
    let rb = record_bytes(f);
    assert forall|j: int| 0 <= j < rl implies bytes[pos + j] == rb[j] by {
        assert(bytes.subrange(pos, pos + rl)[j] == bytes[pos + j]);
    }
    assert(bytes[pos + 0] == rb[0]);
    assert(rb[0] == f.spec_discriminant());
    assert(bytes[pos] == f.spec_discriminant());
    let disc = f.spec_discriminant();
    let fields = bytes.subrange(pos + 4, pos + 4 + family_fields_len(disc));
    assert(family_fields_len(disc) == rl - 4);
    assert(fields =~= record_fields(f)) by {
        assert forall|j: int| 0 <= j < rl - 4 implies fields[j] == record_fields(f)[j] by {
            assert(fields[j] == bytes[pos + 4 + j]);
            assert(rb[4 + j] == record_fields(f)[j]);
        }
    }
    match f {
        FilterConfig::Lowpass(x) => {
            lemma_fq_fields_round(x);
            assert(fq_variant(disc, x) == f);
        },
        FilterConfig::Highpass(x) => {
            lemma_fq_fields_round(x);
            assert(fq_variant(disc, x) == f);
        },
        FilterConfig::BandpassSkirt(x) => {
            lemma_fq_fields_round(x);
            assert(fq_variant(disc, x) == f);
        },
        FilterConfig::BandpassPeak(x) => {
            lemma_fq_fields_round(x);
            assert(fq_variant(disc, x) == f);
        },
        FilterConfig::Notch(x) => {
            lemma_fq_fields_round(x);
            assert(fq_variant(disc, x) == f);
        },
        FilterConfig::Allpass(x) => {
            lemma_fq_fields_round(x);
            assert(fq_variant(disc, x) == f);
        },
        FilterConfig::Peaking(x) => {
            lemma_fgq_fields_round(x);
            assert(fgq_variant(disc, x) == f);
        },
        FilterConfig::LowShelf(x) => {
            lemma_fgq_fields_round(x);
            assert(fgq_variant(disc, x) == f);
        },
        FilterConfig::HighShelf(x) => {
            lemma_fgq_fields_round(x);
            assert(fgq_variant(disc, x) == f);
        },
        FilterConfig::CustomIIR(x) => {
            lemma_custom_fields_round(x);
        },
    }
}

/// Law: the records of a chain, written enabled-slots-only and read
/// back over exactly their span, yield the enabled slots in order.
/// Decoding never resurrects a disabled slot and never reorders.
pub proof fn lemma_chain_round_trip(bytes: Seq<u8>, pos: int, end: int, chain: Seq<SavedFilter>)
    requires
        0 <= pos <= end <= bytes.len(),
        bytes.subrange(pos, end) == chain_payload(chain),
        chain_wire_valid(chain),
    ensures
        spec_decode_filter_chain(bytes, pos, end) == Ok::<_, ProtocolError>(enabled_only(chain)),
    decreases chain.len(),
{
    if chain.len() == 0 {
        assert(chain_payload(chain) == Seq::<u8>::empty());
        assert(bytes.subrange(pos, end).len() == end - pos);
        assert(end - pos == 0);
    } else {
        let x = chain.first();
        let rest = chain.drop_first();
        assert(chain_wire_valid(rest)) by {
            assert forall|i: int| 0 <= i < rest.len() && rest[i].enabled
                implies rest[i].filter.spec_valid() by {
                assert(rest[i] == chain[i + 1]);
            }
        }
        if !x.enabled {
            assert(chain_payload(chain) == Seq::<u8>::empty() + chain_payload(rest));
            assert(Seq::<u8>::empty() + chain_payload(rest) =~= chain_payload(rest));
            lemma_chain_round_trip(bytes, pos, end, rest);
            assert(enabled_only(chain) == Seq::<SavedFilter>::empty() + enabled_only(rest));
            assert(Seq::<SavedFilter>::empty() + enabled_only(rest) =~= enabled_only(rest));
        } else {
            let rl = record_len(x.filter);
            let rb = record_bytes(x.filter);
            lemma_record_bytes_len(x.filter);
            assert(chain_payload(chain) == rb + chain_payload(rest));
            assert(end - pos == rl + chain_payload(rest).len());
            assert(bytes.subrange(pos, pos + rl) =~= rb) by {
                assert forall|j: int|
                    0 <= j < rl implies bytes.subrange(pos, pos + rl)[j] == rb[j] by {
                    assert(bytes.subrange(pos, end)[j] == bytes[pos + j]);
                    assert(chain_payload(chain)[j] == rb[j]);
                }
            }
            assert(x.filter.spec_valid());
            lemma_read_record(bytes, pos, end, x.filter);
            assert(bytes.subrange(pos + rl, end) =~= chain_payload(rest)) by {
                assert forall|j: int|
                    0 <= j < end - pos - rl implies bytes.subrange(pos + rl, end)[j]
                        == chain_payload(rest)[j] by {
                    assert(bytes.subrange(pos, end)[rl + j] == bytes[pos + rl + j]);
                    assert(chain_payload(chain)[rl + j] == chain_payload(rest)[j]);
                }
            }
            lemma_chain_round_trip(bytes, pos + rl, end, rest);
            assert(SavedFilter { enabled: true, filter: x.filter } == x);
            assert(spec_decode_filter_chain(bytes, pos, end) == Ok::<_, ProtocolError>(
                seq![x] + enabled_only(rest),
            ));
            assert(enabled_only(chain) == seq![x] + enabled_only(rest));
        }
    }
}

/// A chain with every slot enabled is its own enabled part.
pub proof fn lemma_enabled_only_identity(chain: Seq<SavedFilter>)
    requires
        forall|i: int| 0 <= i < chain.len() ==> chain[i].enabled,
    ensures
        enabled_only(chain) == chain,
    decreases chain.len(),
{
    if chain.len() == 0 {
        assert(enabled_only(chain) =~= chain);
    } else {
        let rest = chain.drop_first();
        assert(forall|i: int| 0 <= i < rest.len() ==> rest[i] == chain[i + 1]);
        lemma_enabled_only_identity(rest);
        assert(chain[0].enabled);
        assert(enabled_only(chain) == seq![chain.first()] + rest);
        assert(seq![chain.first()] + rest =~= chain);
    }
}

/// Law: a disabled slot leaves no trace on the wire.  Removing it from
/// the chain leaves the encoded payload — and so its length — exactly
/// as it was.
pub proof fn lemma_disabled_slot_invisible(chain: Seq<SavedFilter>, i: int)
    requires
        0 <= i < chain.len(),
        !chain[i].enabled,
    ensures
        chain_payload(chain.remove(i)) == chain_payload(chain),
    decreases chain.len(),
{
    if i == 0 {
        assert(chain.remove(0) =~= chain.drop_first());
        assert(chain_payload(chain) == Seq::<u8>::empty() + chain_payload(chain.drop_first()));
        assert(Seq::<u8>::empty() + chain_payload(chain.drop_first()) =~= chain_payload(
            chain.drop_first(),
        ));
    } else {
        let rest = chain.drop_first();
        assert(chain.remove(i).first() == chain.first());
        assert(chain.remove(i).drop_first() =~= rest.remove(i - 1));
        assert(rest[i - 1] == chain[i]);
        lemma_disabled_slot_invisible(rest, i - 1);
        assert(chain_payload(chain.remove(i)) == (if chain.first().enabled {
            record_bytes(chain.first().filter)
        } else {
            Seq::<u8>::empty()
        }) + chain_payload(rest.remove(i - 1)));
        assert(chain_payload(chain) == (if chain.first().enabled {
            record_bytes(chain.first().filter)
        } else {
            Seq::<u8>::empty()
        }) + chain_payload(rest));
    }
}

} // verus!
