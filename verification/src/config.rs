//! The configuration aggregate: preprocessing, filter chain and codec
//! flags, and the codec that folds them into one envelope and back.
//!
//! The wire stores each preprocessing gain as "linear gain minus one",
//! a compromise kept for firmware that stored gain including unity
//! gain.  This crate stores exactly the wire form, as single-precision
//! bit patterns; translating to and from a decibel view — where that
//! offset must be added back before taking the logarithm — is the
//! caller's numeric work and happens outside this crate.

use vstd::prelude::*;

use crate::commands::StructureTypes;
use crate::envelope::{append_bytes, tlv_bytes};
use crate::errors::ProtocolError;
use crate::filters::{
    chain_payload, chain_wire_valid, enabled_only, lemma_chain_round_trip,
    spec_decode_filter_chain, decode_filter_chain, Filters, Payload, SavedFilter,
};
use crate::wire::{
    lemma_u16_le_bytes_inverse, lemma_u32_le_bytes_inverse, push_u16_le, read_u16_le, read_u32_le,
    u16_le_bytes, u16_of_le, u32_le_bytes, u32_of_le,
};

verus! {

/// Preprocessing settings.  The gains hold the wire form: the
/// single-precision bit pattern of the linear gain minus one.
#[derive(Clone, Copy, Debug, PartialEq, Eq, Structural)]
pub struct Preprocessing {
    /// Pre-EQ gain, wire form, single-precision bit pattern.
    pub preamp_bits: u32,
    /// Post-EQ gain, wire form, single-precision bit pattern.
    pub post_eq_gain_bits: u32,
    /// Whether the two channels are swapped.
    pub reverse_stereo: bool,
}

impl Preprocessing {
    pub fn new(preamp_bits: u32, post_eq_gain_bits: u32, reverse_stereo: bool) -> (r: Self)
        ensures
            r == (Preprocessing { preamp_bits, post_eq_gain_bits, reverse_stereo }),
    {
        Preprocessing { preamp_bits, post_eq_gain_bits, reverse_stereo }
    }

    /// Byte image of the preprocessing payload: the two gains, the
    /// stereo flag and three reserved zero bytes — twelve bytes.
    pub open spec fn payload_spec(&self) -> Seq<u8> {
        u32_le_bytes(self.preamp_bits) + u32_le_bytes(self.post_eq_gain_bits) + seq![
            (if self.reverse_stereo {
                1u8
            } else {
                0u8
            }),
            0u8,
            0u8,
            0u8,
        ]
    }

    /// Writes the preprocessing payload.
    pub fn to_payload(&self) -> (r: Vec<u8>)
        ensures
            r@ == self.payload_spec(),
            r@.len() == 12,
    {
        let mut out: Vec<u8> = Vec::new();
        crate::wire::push_u32_le(&mut out, self.preamp_bits);
        crate::wire::push_u32_le(&mut out, self.post_eq_gain_bits);
        out.push(if self.reverse_stereo {
            1
        } else {
            0
        });
        out.push(0);
        out.push(0);
        out.push(0);
        assert(out@ =~= self.payload_spec());
        out
    }
}

impl Default for Preprocessing {
    /// Zero gains in wire form, channels unswapped.
    fn default() -> (r: Self)
        ensures
            r == (Preprocessing { preamp_bits: 0, post_eq_gain_bits: 0, reverse_stereo: false }),
    {
        Preprocessing { preamp_bits: 0, post_eq_gain_bits: 0, reverse_stereo: false }
    }
}

/// The codec's four independent switches, one byte each on the wire.
#[derive(Clone, Copy, Debug, PartialEq, Eq, Structural)]
pub struct Codec {
    pub oversampling: bool,
    pub phase: bool,
    pub rolloff: bool,
    pub de_emphasis: bool,
}

impl Codec {
    pub fn new(oversampling: bool, phase: bool, rolloff: bool, de_emphasis: bool) -> (r: Self)
        ensures
            r == (Codec { oversampling, phase, rolloff, de_emphasis }),
    {
        Codec { oversampling, phase, rolloff, de_emphasis }
    }

    /// Byte image of the codec payload: the four flags — four bytes.
    pub open spec fn payload_spec(&self) -> Seq<u8> {
        seq![
            (if self.oversampling {
                1u8
            } else {
                0u8
            }),
            (if self.phase {
                1u8
            } else {
                0u8
            }),
            (if self.rolloff {
                1u8
            } else {
                0u8
            }),
            (if self.de_emphasis {
                1u8
            } else {
                0u8
            }),
        ]
    }

    /// Writes the codec payload.
    pub fn to_payload(&self) -> (r: Vec<u8>)
        ensures
            r@ == self.payload_spec(),
            r@.len() == 4,
    {
        let mut out: Vec<u8> = Vec::new();
        out.push(if self.oversampling {
            1
        } else {
            0
        });
        out.push(if self.phase {
            1
        } else {
            0
        });
        out.push(if self.rolloff {
            1
        } else {
            0
        });
        out.push(if self.de_emphasis {
            1
        } else {
            0
        });
        assert(out@ =~= self.payload_spec());
        out
    }
}

impl Default for Codec {
    /// All four switches off.
    fn default() -> (r: Self)
        ensures
            r == (Codec { oversampling: false, phase: false, rolloff: false, de_emphasis: false }),
    {
        Codec { oversampling: false, phase: false, rolloff: false, de_emphasis: false }
    }
}

/// The whole device configuration held in memory.
#[derive(Debug, Clone, PartialEq, Eq)]
pub struct Config {
    pub preprocessing: Preprocessing,
    pub filters: Filters,
    pub codec: Codec,
}

/// Mathematical image of a [`Config`]: the filter chain as a sequence.
#[verifier::ext_equal]
pub struct ConfigModel {
    pub preprocessing: Preprocessing,
    pub chain: Seq<SavedFilter>,
    pub codec: Codec,
}

impl View for Config {
    type V = ConfigModel;

    open spec fn view(&self) -> ConfigModel {
        ConfigModel { preprocessing: self.preprocessing, chain: self.filters@, codec: self.codec }
    }
}

impl Config {
    pub fn new(preprocessing: Preprocessing, filters: Filters, codec: Codec) -> (r: Self)
        ensures
            r.preprocessing == preprocessing,
            r.filters == filters,
            r.codec == codec,
    {
        Config { preprocessing, filters, codec }
    }
}

impl Default for Config {
    /// Default sub-structures and an empty chain.
    fn default() -> (r: Self)
        ensures
            r@ == default_model(),
    {
        let c = Config {
            preprocessing: Preprocessing::default(),
            filters: Filters::default(),
            codec: Codec::default(),
        };
        assert(c@ =~= default_model());
        c
    }
}

/// The configuration a decode starts from: every field in its default
/// state, overwritten as recognized envelopes arrive.
pub open spec fn default_model() -> ConfigModel {
    ConfigModel {
        preprocessing: Preprocessing { preamp_bits: 0, post_eq_gain_bits: 0, reverse_stereo: false },
        chain: Seq::empty(),
        codec: Codec { oversampling: false, phase: false, rolloff: false, de_emphasis: false },
    }
}

/// Byte image of the preprocessing envelope.
pub open spec fn preprocessing_tlv(p: Preprocessing) -> Seq<u8> {
    tlv_bytes(StructureTypes::PreProcessingConfiguration.spec_tag(), p.payload_spec())
}

/// Byte image of the filter chain envelope: enabled filters only.
pub open spec fn filters_tlv(chain: Seq<SavedFilter>) -> Seq<u8> {
    tlv_bytes(StructureTypes::FilterConfiguration.spec_tag(), chain_payload(chain))
}

/// Byte image of the codec envelope.
pub open spec fn codec_tlv(c: Codec) -> Seq<u8> {
    tlv_bytes(StructureTypes::Pcm3060Configuration.spec_tag(), c.payload_spec())
}

/// The three inner envelopes of a configuration, in their fixed order.
pub open spec fn config_inner_payload(v: ConfigModel) -> Seq<u8> {
    preprocessing_tlv(v.preprocessing) + filters_tlv(v.chain) + codec_tlv(v.codec)
}

/// Byte image of a complete `SetConfiguration` message.
pub open spec fn config_encoding(v: ConfigModel) -> Seq<u8> {
    tlv_bytes(StructureTypes::SetConfiguration.spec_tag(), config_inner_payload(v))
}

/// Whether the configuration's encoding fits the wire: the outer
/// envelope declares `32 + chain payload` bytes in a `u16`.
pub open spec fn config_fits(v: ConfigModel) -> bool {
    chain_payload(v.chain).len() + 32 <= 65535
}

/// Encodes a configuration as a complete `SetConfiguration` message.
/// Every enabled filter is validated before a byte is produced.
pub fn encode_configuration(config: &Config) -> (r: Result<Vec<u8>, ProtocolError>)
    requires
        config_fits(config@),
    ensures
        match r {
            Ok(v) => chain_wire_valid(config@.chain) && v@ == config_encoding(config@)
                && v@.len() == 32 + chain_payload(config@.chain).len(),
            Err(e) => !chain_wire_valid(config@.chain) && e == ProtocolError::InvalidParameter,
        },
{
    let filter_payload = match config.filters.to_payload() {
        Ok(p) => p,
        Err(e) => {
            return Err(e);
        },
    };
    let prep_payload = config.preprocessing.to_payload();
    let codec_payload = config.codec.to_payload();

    let mut inner: Vec<u8> = Vec::new();
    push_u16_le(&mut inner, StructureTypes::PreProcessingConfiguration.tag());
    push_u16_le(&mut inner, 16);
    append_bytes(&mut inner, &prep_payload);
    assert(inner@ =~= preprocessing_tlv(config@.preprocessing));

    let ghost after_prep = inner@;
    push_u16_le(&mut inner, StructureTypes::FilterConfiguration.tag());
    push_u16_le(&mut inner, (filter_payload.len() + 4) as u16);
    append_bytes(&mut inner, &filter_payload);
    assert(inner@ =~= after_prep + filters_tlv(config@.chain));

    let ghost after_filters = inner@;
    push_u16_le(&mut inner, StructureTypes::Pcm3060Configuration.tag());
    push_u16_le(&mut inner, 8);
    append_bytes(&mut inner, &codec_payload);
    assert(inner@ =~= after_filters + codec_tlv(config@.codec));
    assert(inner@ =~= config_inner_payload(config@));

    let mut out: Vec<u8> = Vec::new();
    push_u16_le(&mut out, StructureTypes::SetConfiguration.tag());
    push_u16_le(&mut out, (inner.len() + 4) as u16);
    append_bytes(&mut out, &inner);
    assert(out@ =~= config_encoding(config@));
    Ok(out)
}

/// What walking the inner envelopes from `pos` to `end` does to a
/// configuration being rebuilt.  Recognized tags overwrite their field
/// — filter envelopes accumulate — and unknown tags are skipped whole.
/// Envelopes must tile the span exactly.
pub open spec fn spec_decode_sections(
    bytes: Seq<u8>,
    pos: int,
    end: int,
    acc: ConfigModel,
) -> Result<ConfigModel, ProtocolError>
    recommends
        0 <= pos,
        end <= bytes.len(),
    decreases end - pos,
{
    if pos >= end {
        Ok(acc)
    } else if pos + 4 > end {
        Err(ProtocolError::MalformedPayload)
    } else {
        let tag = u16_of_le(bytes[pos], bytes[pos + 1]);
        let l = u16_of_le(bytes[pos + 2], bytes[pos + 3]) as int;
        if l < 4 || pos + l > end {
            Err(ProtocolError::MalformedPayload)
        } else if tag == StructureTypes::PreProcessingConfiguration.spec_tag() {
            if l < 16 {
                Err(ProtocolError::MalformedPayload)
            } else {
                let p = Preprocessing {
                    preamp_bits: u32_of_le(
                        bytes[pos + 4],
                        bytes[pos + 5],
                        bytes[pos + 6],
                        bytes[pos + 7],
                    ),
                    post_eq_gain_bits: u32_of_le(
                        bytes[pos + 8],
                        bytes[pos + 9],
                        bytes[pos + 10],
                        bytes[pos + 11],
                    ),
                    reverse_stereo: bytes[pos + 12] != 0,
                };
                spec_decode_sections(bytes, pos + l, end, ConfigModel { preprocessing: p, ..acc })
            }
        } else if tag == StructureTypes::FilterConfiguration.spec_tag() {
            match spec_decode_filter_chain(bytes, pos + 4, pos + l) {
                Ok(recs) => spec_decode_sections(
                    bytes,
                    pos + l,
                    end,
                    ConfigModel { chain: acc.chain + recs, ..acc },
                ),
                Err(e) => Err(e),
            }
        } else if tag == StructureTypes::Pcm3060Configuration.spec_tag() {
            if l < 8 {
                Err(ProtocolError::MalformedPayload)
            } else {
                let c = Codec {
                    oversampling: bytes[pos + 4] != 0,
                    phase: bytes[pos + 5] != 0,
                    rolloff: bytes[pos + 6] != 0,
                    de_emphasis: bytes[pos + 7] != 0,
                };
                spec_decode_sections(bytes, pos + l, end, ConfigModel { codec: c, ..acc })
            }
        } else {
            spec_decode_sections(bytes, pos + l, end, acc)
        }
    }
}

/// What decoding a configuration response yields.  The outer tag is
/// not inspected; the outer declared length bounds the walk, and the
/// buffer may extend past it.
pub open spec fn spec_decode_configuration(bytes: Seq<u8>) -> Result<ConfigModel, ProtocolError> {
    if bytes.len() < 4 {
        Err(ProtocolError::TruncatedMessage)
    } else {
        let total = u16_of_le(bytes[2], bytes[3]) as int;
        if bytes.len() < total {
            Err(ProtocolError::TruncatedMessage)
        } else {
            spec_decode_sections(bytes, 4, total, default_model())
        }
    }
}

/// Decodes a configuration response.  Any error aborts the whole
/// decode; no partial configuration is returned.
pub fn decode_configuration(buf: &Vec<u8>) -> (r: Result<Config, ProtocolError>)
    ensures
        match r {
            Ok(c) => spec_decode_configuration(buf@) == Ok::<_, ProtocolError>(c@),
            Err(e) => spec_decode_configuration(buf@) == Err::<ConfigModel, _>(e),
        },
{
    if buf.len() < 4 {
        return Err(ProtocolError::TruncatedMessage);
    }
    let total = read_u16_le(buf, 2) as usize;
    if buf.len() < total {
        return Err(ProtocolError::TruncatedMessage);
    }
    let mut cfg = Config::default();
    let mut p: usize = 4;
    while p < total
        invariant
            4 <= p,
            total <= buf.len(),
            4 <= buf@.len(),
            total as int == u16_of_le(buf@[2], buf@[3]) as int,
            (match spec_decode_sections(buf@, p as int, total as int, cfg@) {
                Ok(m) => spec_decode_sections(buf@, 4, total as int, default_model())
                    == Ok::<_, ProtocolError>(m),
                Err(e) => spec_decode_sections(buf@, 4, total as int, default_model()) == Err::<
                    ConfigModel,
                    _,
                >(e),
            }),
        decreases total - p,
    {
        let ghost acc0 = cfg@;
        if total - p < 4 {
            proof {
                assert(spec_decode_sections(buf@, p as int, total as int, acc0) == Err::<
                    ConfigModel,
                    ProtocolError,
                >(ProtocolError::MalformedPayload));
            }
            return Err(ProtocolError::MalformedPayload);
        }
        let tag = read_u16_le(buf, p);
        let l = read_u16_le(buf, p + 2) as usize;
        if l < 4 || l > total - p {
            proof {
                assert(spec_decode_sections(buf@, p as int, total as int, acc0) == Err::<
                    ConfigModel,
                    ProtocolError,
                >(ProtocolError::MalformedPayload));
            }
            return Err(ProtocolError::MalformedPayload);
        }
        if tag == StructureTypes::PreProcessingConfiguration.tag() {
            if l < 16 {
                return Err(ProtocolError::MalformedPayload);
            }
            let preamp_bits = read_u32_le(buf, p + 4);
            let post_eq_gain_bits = read_u32_le(buf, p + 8);
            let reverse_stereo = buf[p + 12] != 0;
            cfg.preprocessing = Preprocessing { preamp_bits, post_eq_gain_bits, reverse_stereo };
            assert(cfg@ =~= (ConfigModel { preprocessing: cfg.preprocessing, ..acc0 }));
        } else if tag == StructureTypes::FilterConfiguration.tag() {
            match decode_filter_chain(buf, p + 4, p + l) {
                Ok(mut recs) => {
                    let ghost recs0 = recs@;
                    cfg.filters.0.append(&mut recs);
                    assert(cfg@ =~= (ConfigModel { chain: acc0.chain + recs0, ..acc0 }));
                },
                Err(e) => {
                    proof {
                        assert(spec_decode_sections(buf@, p as int, total as int, acc0) == Err::<
                            ConfigModel,
                            ProtocolError,
                        >(e));
                    }
                    return Err(e);
                },
            }
        } else if tag == StructureTypes::Pcm3060Configuration.tag() {
            if l < 8 {
                return Err(ProtocolError::MalformedPayload);
            }
            cfg.codec = Codec {
                oversampling: buf[p + 4] != 0,
                phase: buf[p + 5] != 0,
                rolloff: buf[p + 6] != 0,
                de_emphasis: buf[p + 7] != 0,
            };
            assert(cfg@ =~= (ConfigModel { codec: cfg.codec, ..acc0 }));
        }
        p = p + l;
    }
    Ok(cfg)
}

/// One walk step over an encoded preprocessing envelope: it replaces
/// the preprocessing field and moves on.
proof fn lemma_sections_step_preprocessing(
    bytes: Seq<u8>,
    pos: int,
    end: int,
    acc: ConfigModel,
    p: Preprocessing,
)
    requires
        0 <= pos,
        pos + 16 <= end <= bytes.len(),
        bytes.subrange(pos, pos + 16) == preprocessing_tlv(p),
    ensures
        spec_decode_sections(bytes, pos, end, acc) == spec_decode_sections(
            bytes,
            pos + 16,
            end,
            ConfigModel { preprocessing: p, ..acc },
        ),
{
    let tlv = preprocessing_tlv(p);
    let payload = p.payload_spec();
    let tag = StructureTypes::PreProcessingConfiguration.spec_tag();
    assert(payload.len() == 12);
    crate::envelope::lemma_tlv_bytes_parts(tag, payload);
    assert(tlv.len() == 16);
    assert forall|j: int| 0 <= j < 16 implies bytes[pos + j] == tlv[j] by {
        assert(bytes.subrange(pos, pos + 16)[j] == bytes[pos + j]);
    }
    assert(bytes[pos + 0] == tlv[0]);
    assert(bytes[pos + 1] == tlv[1]);
    assert(bytes[pos + 2] == tlv[2]);
    assert(bytes[pos + 3] == tlv[3]);
    assert(u16_of_le(bytes[pos], bytes[pos + 1]) == tag);
    assert(u16_of_le(bytes[pos + 2], bytes[pos + 3]) as int == 16);
    assert forall|j: int| 0 <= j < 12 implies bytes[pos + 4 + j] == payload[j] by {
        assert(bytes[pos + (4 + j)] == tlv[4 + j]);
        assert(tlv[4 + j] == payload[(4 + j) - 4]);
    }
    assert forall|j: int| 0 <= j < 4 implies payload[j] == u32_le_bytes(p.preamp_bits)[j]
        && payload[4 + j] == u32_le_bytes(p.post_eq_gain_bits)[j] by {}
    assert(bytes[pos + 4 + 0] == u32_le_bytes(p.preamp_bits)[0]);
    assert(bytes[pos + 4 + 1] == u32_le_bytes(p.preamp_bits)[1]);
    assert(bytes[pos + 4 + 2] == u32_le_bytes(p.preamp_bits)[2]);
    assert(bytes[pos + 4 + 3] == u32_le_bytes(p.preamp_bits)[3]);
    assert(bytes[pos + 4 + 4] == u32_le_bytes(p.post_eq_gain_bits)[0]);
    assert(bytes[pos + 4 + 5] == u32_le_bytes(p.post_eq_gain_bits)[1]);
    assert(bytes[pos + 4 + 6] == u32_le_bytes(p.post_eq_gain_bits)[2]);
    assert(bytes[pos + 4 + 7] == u32_le_bytes(p.post_eq_gain_bits)[3]);
    lemma_u32_le_bytes_inverse(p.preamp_bits);
    lemma_u32_le_bytes_inverse(p.post_eq_gain_bits);
    assert(u32_of_le(bytes[pos + 4], bytes[pos + 5], bytes[pos + 6], bytes[pos + 7])
        == p.preamp_bits);
    assert(u32_of_le(bytes[pos + 8], bytes[pos + 9], bytes[pos + 10], bytes[pos + 11])
        == p.post_eq_gain_bits);
    assert(bytes[pos + 4 + 8] == payload[8]);
    assert((bytes[pos + 12] != 0) == p.reverse_stereo);
    let decoded = Preprocessing {
        preamp_bits: u32_of_le(bytes[pos + 4], bytes[pos + 5], bytes[pos + 6], bytes[pos + 7]),
        post_eq_gain_bits: u32_of_le(
            bytes[pos + 8],
            bytes[pos + 9],
            bytes[pos + 10],
            bytes[pos + 11],
        ),
        reverse_stereo: bytes[pos + 12] != 0,
    };
    assert(decoded == p);
}

/// One walk step over an encoded filter-chain envelope: it appends the
/// enabled slots and moves on.
proof fn lemma_sections_step_filters(
    bytes: Seq<u8>,
    pos: int,
    end: int,
    acc: ConfigModel,
    chain: Seq<SavedFilter>,
)
    requires
        0 <= pos,
        chain_payload(chain).len() + 4 <= 65535,
        pos + 4 + chain_payload(chain).len() <= end <= bytes.len(),
        bytes.subrange(pos, pos + 4 + chain_payload(chain).len()) == filters_tlv(chain),
        chain_wire_valid(chain),
    ensures
        spec_decode_sections(bytes, pos, end, acc) == spec_decode_sections(
            bytes,
            pos + 4 + chain_payload(chain).len(),
            end,
            ConfigModel { chain: acc.chain + enabled_only(chain), ..acc },
        ),
{
    let cp = chain_payload(chain);
    let cpl = cp.len() as int;
    let tlv = filters_tlv(chain);
    let tag = StructureTypes::FilterConfiguration.spec_tag();
    crate::envelope::lemma_tlv_bytes_parts(tag, cp);
    assert(tlv.len() == 4 + cpl);
    assert forall|j: int| 0 <= j < 4 + cpl implies bytes[pos + j] == tlv[j] by {
        assert(bytes.subrange(pos, pos + 4 + cpl)[j] == bytes[pos + j]);
    }
    assert(bytes[pos + 0] == tlv[0]);
    assert(bytes[pos + 1] == tlv[1]);
    assert(bytes[pos + 2] == tlv[2]);
    assert(bytes[pos + 3] == tlv[3]);
    assert(u16_of_le(bytes[pos], bytes[pos + 1]) == tag);
    assert(u16_of_le(bytes[pos + 2], bytes[pos + 3]) as int == 4 + cpl);
    assert(bytes.subrange(pos + 4, pos + 4 + cpl) =~= cp) by {
        assert forall|j: int| 0 <= j < cpl implies bytes.subrange(pos + 4, pos + 4 + cpl)[j]
            == cp[j] by {
            assert(bytes.subrange(pos + 4, pos + 4 + cpl)[j] == bytes[pos + (4 + j)]);
            assert(tlv[4 + j] == cp[(4 + j) - 4]);
        }
    }
    lemma_chain_round_trip(bytes, pos + 4, pos + 4 + cpl, chain);
}

/// One walk step over an encoded codec envelope: it replaces the codec
/// field and moves on.
proof fn lemma_sections_step_codec(
    bytes: Seq<u8>,
    pos: int,
    end: int,
    acc: ConfigModel,
    c: Codec,
)
    requires
        0 <= pos,
        pos + 8 <= end <= bytes.len(),
        bytes.subrange(pos, pos + 8) == codec_tlv(c),
    ensures
        spec_decode_sections(bytes, pos, end, acc) == spec_decode_sections(
            bytes,
            pos + 8,
            end,
            ConfigModel { codec: c, ..acc },
        ),
{
    let tlv = codec_tlv(c);
    let payload = c.payload_spec();
    let tag = StructureTypes::Pcm3060Configuration.spec_tag();
    assert(payload.len() == 4);
    crate::envelope::lemma_tlv_bytes_parts(tag, payload);
    assert(tlv.len() == 8);
    assert forall|j: int| 0 <= j < 8 implies bytes[pos + j] == tlv[j] by {
        assert(bytes.subrange(pos, pos + 8)[j] == bytes[pos + j]);
    }
    assert(bytes[pos + 0] == tlv[0]);
    assert(bytes[pos + 1] == tlv[1]);
    assert(bytes[pos + 2] == tlv[2]);
    assert(bytes[pos + 3] == tlv[3]);
    assert(u16_of_le(bytes[pos], bytes[pos + 1]) == tag);
    assert(u16_of_le(bytes[pos + 2], bytes[pos + 3]) as int == 8);
    assert(bytes[pos + 4 + 0] == tlv[4] && tlv[4] == payload[0]);
    assert(bytes[pos + 4 + 1] == tlv[5] && tlv[5] == payload[1]);
    assert(bytes[pos + 4 + 2] == tlv[6] && tlv[6] == payload[2]);
    assert(bytes[pos + 4 + 3] == tlv[7] && tlv[7] == payload[3]);
    let decoded = Codec {
        oversampling: bytes[pos + 4] != 0,
        phase: bytes[pos + 5] != 0,
        rolloff: bytes[pos + 6] != 0,
        de_emphasis: bytes[pos + 7] != 0,
    };
    assert(decoded == c);
}

/// Law: encode and decode are mutually inverse up to disabled slots.
/// Decoding an encoded configuration recovers it exactly, except that
/// the chain comes back as the enabled slots alone — a disabled slot is
/// never written, so nothing can bring it back.
pub proof fn lemma_configuration_round_trip(v: ConfigModel)
    requires
        chain_wire_valid(v.chain),
        config_fits(v),
    ensures
        spec_decode_configuration(config_encoding(v)) == Ok::<_, ProtocolError>(
            ConfigModel { chain: enabled_only(v.chain), ..v },
        ),
{
    let bytes = config_encoding(v);
    let inner = config_inner_payload(v);
    let pre = preprocessing_tlv(v.preprocessing);
    let fil = filters_tlv(v.chain);
    let cod = codec_tlv(v.codec);
    let cpl = chain_payload(v.chain).len() as int;
    assert(pre.len() == 16);
    assert(fil.len() == 4 + cpl);
    assert(cod.len() == 8);
    assert(inner.len() == 28 + cpl);
    assert(bytes.len() == 32 + cpl);

    let total16 = (inner.len() + 4) as u16;
    assert(bytes[2] == u16_le_bytes(total16)[0]);
    assert(bytes[3] == u16_le_bytes(total16)[1]);
    lemma_u16_le_bytes_inverse(total16);
    let total = 32 + cpl;
    assert(u16_of_le(bytes[2], bytes[3]) as int == total);

    assert forall|j: int| 0 <= j < inner.len() implies bytes[4 + j] == inner[j] by {}

    let acc0 = default_model();
    assert(bytes.subrange(4, 20) =~= pre) by {
        assert forall|j: int| 0 <= j < 16 implies bytes.subrange(4, 20)[j] == pre[j] by {
            assert(bytes.subrange(4, 20)[j] == bytes[4 + j]);
            assert(inner[j] == pre[j]);
        }
    }
    lemma_sections_step_preprocessing(bytes, 4, total, acc0, v.preprocessing);
    let acc1 = ConfigModel { preprocessing: v.preprocessing, ..acc0 };

    assert(bytes.subrange(20, 24 + cpl) =~= fil) by {
        assert forall|j: int| 0 <= j < 4 + cpl implies bytes.subrange(20, 24 + cpl)[j]
            == fil[j] by {
            assert(bytes.subrange(20, 24 + cpl)[j] == bytes[4 + (16 + j)]);
            assert(inner[16 + j] == fil[j]);
        }
    }
    lemma_sections_step_filters(bytes, 20, total, acc1, v.chain);
    let acc2 = ConfigModel { chain: acc1.chain + enabled_only(v.chain), ..acc1 };

    assert(bytes.subrange(24 + cpl, 32 + cpl) =~= cod) by {
        assert forall|j: int| 0 <= j < 8 implies bytes.subrange(24 + cpl, 32 + cpl)[j]
            == cod[j] by {
            assert(bytes.subrange(24 + cpl, 32 + cpl)[j] == bytes[4 + (20 + cpl + j)]);
            assert(inner[20 + cpl + j] == cod[j]);
        }
    }
    lemma_sections_step_codec(bytes, 24 + cpl, total, acc2, v.codec);
    let acc3 = ConfigModel { codec: v.codec, ..acc2 };

    assert(spec_decode_sections(bytes, total, total, acc3) == Ok::<_, ProtocolError>(acc3));
    assert(acc3 =~= (ConfigModel { chain: enabled_only(v.chain), ..v })) by {
        assert(Seq::<SavedFilter>::empty() + enabled_only(v.chain) =~= enabled_only(v.chain));
    }
}

/// Law: for a configuration whose slots are all enabled, decoding the
/// encoding gives back exactly the configuration.
pub proof fn lemma_configuration_round_trip_exact(v: ConfigModel)
    requires
        chain_wire_valid(v.chain),
        config_fits(v),
        forall|i: int| 0 <= i < v.chain.len() ==> v.chain[i].enabled,
    ensures
        spec_decode_configuration(config_encoding(v)) == Ok::<_, ProtocolError>(v),
{
    lemma_configuration_round_trip(v);
    crate::filters::lemma_enabled_only_identity(v.chain);
    assert((ConfigModel { chain: enabled_only(v.chain), ..v }) =~= v);
}

} // verus!
