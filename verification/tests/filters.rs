//! Filter construction, record layout and the filter-chain payload.

use headphones_toolbox::commands::{Command, SetFilterConfiguration};
use headphones_toolbox::errors::ProtocolError;
use headphones_toolbox::filters::{
    read_filter, CustomIIRFilter, FilterConfig, Filters, FreqGainQualFilter, FreqQualFilter,
    Payload, SavedFilter, StructuralPayload, Validate,
};

#[test]
fn quality_above_zero_accepted() {
    assert!(FreqQualFilter::new(1000.0f32.to_bits(), 0.7f32.to_bits()).is_ok());
    assert!(FreqQualFilter::new(0.0f32.to_bits(), f32::MIN_POSITIVE.to_bits()).is_ok());
    assert!(FreqGainQualFilter::new(2000.0f32.to_bits(), 1.0f32.to_bits(), (-3.0f32).to_bits())
        .is_ok());
}

#[test]
fn quality_at_or_below_zero_rejected() {
    assert_eq!(
        FreqQualFilter::new(1000.0f32.to_bits(), 0.0f32.to_bits()),
        Err(ProtocolError::InvalidParameter)
    );
    assert_eq!(
        FreqQualFilter::new(1000.0f32.to_bits(), (-0.0f32).to_bits()),
        Err(ProtocolError::InvalidParameter)
    );
    assert_eq!(
        FreqQualFilter::new(1000.0f32.to_bits(), (-1.5f32).to_bits()),
        Err(ProtocolError::InvalidParameter)
    );
    assert_eq!(
        FreqGainQualFilter::new(1000.0f32.to_bits(), f32::NEG_INFINITY.to_bits(), 0),
        Err(ProtocolError::InvalidParameter)
    );
}

#[test]
fn validate_matches_construction() {
    let good = FreqQualFilter::new(500.0f32.to_bits(), 2.0f32.to_bits()).unwrap();
    assert!(FilterConfig::Highpass(good).validate().is_ok());
    let bad = FreqQualFilter { f0_bits: 500.0f32.to_bits(), q_bits: 0 };
    assert_eq!(
        FilterConfig::Highpass(bad).validate(),
        Err(ProtocolError::InvalidParameter)
    );
}

#[test]
fn record_sizes_are_fixed() {
    let fq = FreqQualFilter::new(1000.0f32.to_bits(), 0.7f32.to_bits()).unwrap();
    let fgq = FreqGainQualFilter::new(1000.0f32.to_bits(), 0.7f32.to_bits(), 6.0f32.to_bits())
        .unwrap();
    let iir = CustomIIRFilter::new(
        1.0f64.to_bits(),
        0,
        0,
        1.0f64.to_bits(),
        0,
        0,
    );
    assert_eq!(FilterConfig::Lowpass(fq).to_payload().unwrap().len(), 12);
    assert_eq!(FilterConfig::Notch(fq).to_payload().unwrap().len(), 12);
    assert_eq!(FilterConfig::Peaking(fgq).to_payload().unwrap().len(), 16);
    assert_eq!(FilterConfig::HighShelf(fgq).to_payload().unwrap().len(), 16);
    assert_eq!(FilterConfig::CustomIIR(iir).to_payload().unwrap().len(), 52);
}

#[test]
fn lowpass_record_layout() {
    let fq = FreqQualFilter::new(1000.0f32.to_bits(), 0.7f32.to_bits()).unwrap();
    let record = FilterConfig::Lowpass(fq).to_payload().unwrap();
    let mut expected = vec![0u8, 0, 0, 0];
    expected.extend_from_slice(&1000.0f32.to_le_bytes());
    expected.extend_from_slice(&0.7f32.to_le_bytes());
    assert_eq!(record, expected);
}

#[test]
fn gain_precedes_quality_on_the_wire() {
    let fgq = FreqGainQualFilter::new(250.0f32.to_bits(), 1.5f32.to_bits(), (-4.5f32).to_bits())
        .unwrap();
    let fields = fgq.to_structural_payload();
    let mut expected = Vec::new();
    expected.extend_from_slice(&250.0f32.to_le_bytes());
    expected.extend_from_slice(&(-4.5f32).to_le_bytes());
    expected.extend_from_slice(&1.5f32.to_le_bytes());
    assert_eq!(fields, expected);
}

#[test]
fn custom_iir_field_order() {
    let iir = CustomIIRFilter::new(
        1.0f64.to_bits(),
        2.0f64.to_bits(),
        3.0f64.to_bits(),
        4.0f64.to_bits(),
        5.0f64.to_bits(),
        6.0f64.to_bits(),
    );
    let fields = iir.to_structural_payload();
    let mut expected = Vec::new();
    for c in [1.0f64, 2.0, 3.0, 4.0, 5.0, 6.0] {
        expected.extend_from_slice(&c.to_le_bytes());
    }
    assert_eq!(fields, expected);
}

#[test]
fn disabled_filters_leave_no_trace() {
    let enabled = FilterConfig::Lowpass(
        FreqQualFilter::new(1000.0f32.to_bits(), 0.7f32.to_bits()).unwrap(),
    );
    let disabled = FilterConfig::Highpass(
        FreqQualFilter::new(80.0f32.to_bits(), 1.0f32.to_bits()).unwrap(),
    );

    let mut with_disabled = Filters::default();
    with_disabled.add(enabled, true);
    with_disabled.add(disabled, false);

    let mut without = Filters::default();
    without.add(enabled, true);

    let a = with_disabled.to_payload().unwrap();
    let b = without.to_payload().unwrap();
    assert_eq!(a, b);
    assert_eq!(a.len(), 12);

    // Re-adding the disabled slot changes nothing either.
    let mut readded = without;
    readded.add(disabled, false);
    assert_eq!(readded.to_payload().unwrap().len(), a.len());
}

#[test]
fn disabled_filters_skip_validation_on_encode() {
    let broken = FilterConfig::Lowpass(FreqQualFilter { f0_bits: 0, q_bits: 0 });
    let mut filters = Filters::default();
    filters.add(broken, false);
    assert_eq!(filters.to_payload().unwrap(), Vec::<u8>::new());
    // The same filter enabled is rejected before any byte is written.
    filters.add(broken, true);
    assert_eq!(filters.to_payload(), Err(ProtocolError::InvalidParameter));
    // Validate, unlike the encoder, looks at disabled slots too.
    assert_eq!(filters.validate(), Err(ProtocolError::InvalidParameter));
}

#[test]
fn filter_command_rejects_bad_quality_without_writing() {
    let mut filters = Filters::default();
    filters.add(FilterConfig::Allpass(FreqQualFilter { f0_bits: 0, q_bits: 0 }), true);
    let mut buf = Vec::new();
    let r = SetFilterConfiguration::new(&filters).write_as_binary(&mut buf);
    assert_eq!(r, Err(ProtocolError::InvalidParameter));
    assert!(buf.is_empty());
}

#[test]
fn read_filter_round_trips_one_record() {
    let fq = FreqQualFilter::new(440.0f32.to_bits(), 0.5f32.to_bits()).unwrap();
    let record = FilterConfig::BandpassPeak(fq).to_payload().unwrap();
    let (parsed, next) = read_filter(&record, 0, record.len()).unwrap();
    assert_eq!(parsed, FilterConfig::BandpassPeak(fq));
    assert_eq!(next, 12);
}

#[test]
fn read_filter_rejects_unknown_discriminant() {
    let mut record = vec![10u8, 0, 0, 0];
    record.extend_from_slice(&[0u8; 8]);
    assert_eq!(
        read_filter(&record, 0, record.len()),
        Err(ProtocolError::UnknownFilterType(10))
    );
}

#[test]
fn read_filter_validates_quality() {
    // A lowpass record whose quality field holds 0.0.
    let mut record = vec![0u8, 0, 0, 0];
    record.extend_from_slice(&1000.0f32.to_le_bytes());
    record.extend_from_slice(&0.0f32.to_le_bytes());
    assert_eq!(
        read_filter(&record, 0, record.len()),
        Err(ProtocolError::InvalidParameter)
    );
}

#[test]
fn read_filter_rejects_crossing_record() {
    let fq = FreqQualFilter::new(440.0f32.to_bits(), 0.5f32.to_bits()).unwrap();
    let record = FilterConfig::Lowpass(fq).to_payload().unwrap();
    // The record would cross the declared end of the chain.
    assert_eq!(
        read_filter(&record, 0, record.len() - 1),
        Err(ProtocolError::MalformedPayload)
    );
    // The slot bookkeeping is no different for enabled records.
    assert_eq!(SavedFilter::new(true, FilterConfig::Lowpass(fq)).enabled, true);
}
