//! Envelope primitives, the configuration aggregate codec and the
//! version report.

use headphones_toolbox::commands::encode_command;
use headphones_toolbox::commands::GetVersion;
use headphones_toolbox::config::{
    decode_configuration, encode_configuration, Codec, Config, Preprocessing,
};
use headphones_toolbox::envelope::{decode_envelope, declared_length, Envelope};
use headphones_toolbox::errors::ProtocolError;
use headphones_toolbox::filters::{
    CustomIIRFilter, FilterConfig, Filters, FreqGainQualFilter, FreqQualFilter, Payload,
};
use headphones_toolbox::version::VersionInfo;

fn sample_config() -> Config {
    let mut filters = Filters::default();
    filters.add(
        FilterConfig::Lowpass(
            FreqQualFilter::new(12000.0f32.to_bits(), 0.7f32.to_bits()).unwrap(),
        ),
        true,
    );
    filters.add(
        FilterConfig::Highpass(FreqQualFilter::new(60.0f32.to_bits(), 1.0f32.to_bits()).unwrap()),
        false,
    );
    filters.add(
        FilterConfig::Peaking(
            FreqGainQualFilter::new(2500.0f32.to_bits(), 1.4f32.to_bits(), (-6.0f32).to_bits())
                .unwrap(),
        ),
        true,
    );
    filters.add(
        FilterConfig::CustomIIR(CustomIIRFilter::new(
            1.0f64.to_bits(),
            (-1.8f64).to_bits(),
            0.81f64.to_bits(),
            0.5f64.to_bits(),
            0.0f64.to_bits(),
            (-0.5f64).to_bits(),
        )),
        true,
    );
    Config::new(
        Preprocessing::new((-0.5f32).to_bits(), 0.25f32.to_bits(), true),
        filters,
        Codec::new(true, false, true, false),
    )
}

#[test]
fn configuration_round_trips() {
    let config = sample_config();
    let bytes = encode_configuration(&config).unwrap();
    let decoded = decode_configuration(&bytes).unwrap();

    // The disabled slot is gone; everything else returns exactly.
    let mut expected_filters = Filters::default();
    expected_filters.add(config.filters.0[0].filter, true);
    expected_filters.add(config.filters.0[2].filter, true);
    expected_filters.add(config.filters.0[3].filter, true);
    let expected = Config::new(config.preprocessing, expected_filters, config.codec);
    assert_eq!(decoded, expected);
}

#[test]
fn all_enabled_configuration_round_trips_exactly() {
    let mut filters = Filters::default();
    filters.add(
        FilterConfig::Notch(FreqQualFilter::new(50.0f32.to_bits(), 8.0f32.to_bits()).unwrap()),
        true,
    );
    let config = Config::new(
        Preprocessing::new(0, 0, false),
        filters,
        Codec::default(),
    );
    let bytes = encode_configuration(&config).unwrap();
    assert_eq!(decode_configuration(&bytes).unwrap(), config);
}

#[test]
fn encode_rejects_invalid_enabled_filter() {
    let mut filters = Filters::default();
    filters.add(FilterConfig::Lowpass(FreqQualFilter { f0_bits: 0, q_bits: 0 }), true);
    let config = Config::new(Preprocessing::default(), filters, Codec::default());
    assert_eq!(encode_configuration(&config), Err(ProtocolError::InvalidParameter));
}

#[test]
fn unity_gain_encodes_to_zero() {
    // Linear gain 1.0 in the decibel domain: 20*log10(1) = 0 dB, and
    // back out 10^(0/20) - 1 = 0.0 on the wire.
    let db = (1.0f32).log10() * 20.0;
    let wire = f32::powf(10.0, db / 20.0) - 1.0;
    let p = Preprocessing::new(wire.to_bits(), wire.to_bits(), false);
    assert_eq!(p.to_payload(), vec![0u8; 12]);
}

#[test]
fn empty_response_decodes_to_default() {
    // A bare four-byte header declaring no content at all.
    let bytes = vec![0u8, 0, 4, 0];
    assert_eq!(decode_configuration(&bytes).unwrap(), Config::default());
}

#[test]
fn unknown_inner_tags_are_skipped() {
    // An unrecognized envelope (tag 0x300) precedes a codec envelope.
    let bytes = vec![
        0u8, 0, 18, 0, // outer header, 18 bytes total
        0, 3, 6, 0, 0xaa, 0xbb, // unknown envelope, skipped whole
        2, 2, 8, 0, 1, 0, 0, 1, // codec flags
    ];
    let decoded = decode_configuration(&bytes).unwrap();
    assert_eq!(decoded.codec, Codec::new(true, false, false, true));
    assert_eq!(decoded.filters, Filters::default());
}

#[test]
fn filter_envelopes_accumulate_in_order() {
    // Two filter-chain envelopes in one response: their records join
    // into a single chain, in wire order.
    let lowpass = FilterConfig::Lowpass(
        FreqQualFilter::new(100.0f32.to_bits(), 1.0f32.to_bits()).unwrap(),
    );
    let notch = FilterConfig::Notch(
        FreqQualFilter::new(9000.0f32.to_bits(), 4.0f32.to_bits()).unwrap(),
    );
    let mut filters_a = Filters::default();
    filters_a.add(lowpass, true);
    let mut filters_b = Filters::default();
    filters_b.add(notch, true);

    let mut bytes = vec![0u8, 0, 36, 0];
    let mut tlv = |f: &Filters| {
        let payload = f.to_payload().unwrap();
        let mut out = vec![1u8, 2];
        out.extend_from_slice(&((payload.len() + 4) as u16).to_le_bytes());
        out.extend_from_slice(&payload);
        out
    };
    bytes.extend_from_slice(&tlv(&filters_a));
    bytes.extend_from_slice(&tlv(&filters_b));

    let decoded = decode_configuration(&bytes).unwrap();
    assert_eq!(decoded.filters.0.len(), 2);
    assert_eq!(decoded.filters.0[0].filter, lowpass);
    assert_eq!(decoded.filters.0[1].filter, notch);
}

#[test]
fn preprocessing_bits_pass_through_unchanged() {
    // The gains cross the wire as their exact bit patterns, in both
    // directions; the decibel translation happens outside the codec.
    let p = Preprocessing::new(0.123f32.to_bits(), (-0.875f32).to_bits(), true);
    let config = Config::new(p, Filters::default(), Codec::default());
    let decoded = decode_configuration(&encode_configuration(&config).unwrap()).unwrap();
    assert_eq!(decoded.preprocessing.preamp_bits, 0.123f32.to_bits());
    assert_eq!(decoded.preprocessing.post_eq_gain_bits, (-0.875f32).to_bits());
    assert!(decoded.preprocessing.reverse_stereo);
}

#[test]
fn truncated_buffers_are_fatal() {
    assert_eq!(
        decode_configuration(&vec![4u8, 0, 8]),
        Err(ProtocolError::TruncatedMessage)
    );
    // The header promises more than the buffer holds.
    assert_eq!(
        decode_configuration(&vec![4u8, 0, 40, 0, 2, 2, 8, 0]),
        Err(ProtocolError::TruncatedMessage)
    );
}

#[test]
fn filter_chain_length_mismatch_is_malformed() {
    // One 12-byte lowpass record plus one stray byte: the envelope
    // declares 17 bytes but records only account for 16.
    let mut bytes = vec![4u8, 0, 21, 0, 1, 2, 17, 0];
    bytes.push(0); // lowpass discriminant
    bytes.extend_from_slice(&[0, 0, 0]);
    bytes.extend_from_slice(&1000.0f32.to_le_bytes());
    bytes.extend_from_slice(&0.7f32.to_le_bytes());
    bytes.push(0xcc); // the stray byte
    assert_eq!(decode_configuration(&bytes), Err(ProtocolError::MalformedPayload));
}

#[test]
fn filter_record_crossing_its_envelope_is_malformed() {
    // The envelope declares room for only eight of a record's twelve bytes.
    let mut bytes = vec![4u8, 0, 16, 0, 1, 2, 12, 0];
    bytes.push(0);
    bytes.extend_from_slice(&[0, 0, 0]);
    bytes.extend_from_slice(&1000.0f32.to_le_bytes());
    assert_eq!(decode_configuration(&bytes), Err(ProtocolError::MalformedPayload));
}

#[test]
fn unknown_filter_discriminant_aborts_decode() {
    let mut bytes = vec![4u8, 0, 20, 0, 1, 2, 16, 0];
    bytes.push(42);
    bytes.extend_from_slice(&[0, 0, 0]);
    bytes.extend_from_slice(&[0u8; 8]);
    assert_eq!(decode_configuration(&bytes), Err(ProtocolError::UnknownFilterType(42)));
}

#[test]
fn inner_envelope_overrunning_outer_is_malformed() {
    // The codec envelope claims 12 bytes but only 8 fit the outer span.
    let bytes = vec![0u8, 0, 12, 0, 2, 2, 12, 0, 1, 1, 1, 1];
    assert_eq!(decode_configuration(&bytes), Err(ProtocolError::MalformedPayload));
}

#[test]
fn envelope_encodes_and_decodes() {
    let env = Envelope { tag: 0x42, payload: vec![1, 2, 3] };
    let bytes = env.encode();
    assert_eq!(bytes, vec![0x42, 0, 7, 0, 1, 2, 3]);
    let (back, next) = decode_envelope(&bytes, 0).unwrap();
    assert_eq!(back, env);
    assert_eq!(next, 7);
}

#[test]
fn envelope_decode_reports_short_buffers() {
    assert_eq!(decode_envelope(&vec![1u8, 2], 0), Err(ProtocolError::TruncatedMessage));
    assert_eq!(
        decode_envelope(&vec![1u8, 0, 9, 0, 5], 0),
        Err(ProtocolError::TruncatedMessage)
    );
    // A declared length below the header's own four bytes.
    assert_eq!(
        decode_envelope(&vec![1u8, 0, 2, 0], 0),
        Err(ProtocolError::MalformedPayload)
    );
}

#[test]
fn declared_length_reads_the_first_header() {
    assert_eq!(declared_length(&vec![3u8, 0, 4, 0]), Ok(4));
    assert_eq!(declared_length(&vec![0u8, 2, 16, 0, 9, 9]), Ok(16));
    assert_eq!(declared_length(&vec![3u8, 0]), Err(ProtocolError::TruncatedMessage));
}

#[test]
fn encode_command_matches_write_as_binary() {
    assert_eq!(encode_command(&GetVersion::new()).unwrap(), vec![3, 0, 4, 0]);
}

#[test]
fn version_report_parses() {
    let mut bytes = vec![0u8, 0, 30, 0]; // response header, not inspected
    bytes.extend_from_slice(&[0, 4, 26, 0]); // version-status header, not inspected
    bytes.extend_from_slice(&[3, 0]); // current version
    bytes.extend_from_slice(&[1, 0]); // minimum supported version
    bytes.extend_from_slice(&[0, 0, 0, 0]); // reserved
    bytes.extend_from_slice(b"abc123\0");
    bytes.extend_from_slice(b"sdk-2.0\0");
    let v = VersionInfo::from_buf(&bytes).unwrap();
    assert_eq!(v.current_version, 3);
    assert_eq!(v.minimum_supported_version, 1);
    assert_eq!(v.git_hash, b"abc123".to_vec());
    assert_eq!(v.pico_sdk_version, b"sdk-2.0".to_vec());
}

#[test]
fn version_report_needs_both_terminators() {
    assert_eq!(
        VersionInfo::from_buf(&vec![0u8; 15]),
        Err(ProtocolError::TruncatedMessage)
    );
    let mut bytes = vec![0u8; 16];
    bytes.extend_from_slice(b"no-terminator");
    assert_eq!(VersionInfo::from_buf(&bytes), Err(ProtocolError::TruncatedMessage));
    let mut bytes = vec![0u8; 16];
    bytes.extend_from_slice(b"only-one\0");
    assert_eq!(VersionInfo::from_buf(&bytes), Err(ProtocolError::TruncatedMessage));
}
