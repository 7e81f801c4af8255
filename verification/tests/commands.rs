//! Command catalog wire images.

use headphones_toolbox::commands::{
    Command, FactoryReset, GetStoredConfiguration, GetVersion, SaveConfiguration,
    SetConfiguration, SetFilterConfiguration, SetPcm3060Configuration,
    SetPreprocessingConfiguration,
};
use headphones_toolbox::config::{Codec, Preprocessing};
use headphones_toolbox::filters::Filters;

/// Wire form of a linear gain: into the decibel domain the way a
/// front end stores it, then back out as linear minus one.
fn gain_wire_bits(linear: f32) -> u32 {
    let db = linear.log10() * 20.0;
    (f32::powf(10.0, db / 20.0) - 1.0).to_bits()
}

#[test]
fn get_version_works() {
    let mut buf: Vec<u8> = Vec::new();
    GetVersion::new().write_as_binary(&mut buf).unwrap();
    assert!(buf.len() > 0, "Command didn't write anything");
    assert_eq!(buf.as_slice(), &[3, 0, 4, 0], "Wrong data");
}

#[test]
fn preprocessing_works() {
    let mut buf = Vec::new();
    let config = Preprocessing::new(gain_wire_bits(0.0), gain_wire_bits(0.0), false);
    SetPreprocessingConfiguration::new(&config).write_as_binary(&mut buf).unwrap();
    assert!(buf.len() > 0, "Command didn't write anything");
    assert_eq!(
        buf.as_slice(),
        &[0, 2, 16, 0, 0, 0, 128, 191, 0, 0, 128, 191, 0, 0, 0, 0],
        "Wrong data"
    );
}

#[test]
fn filter_works() {
    let mut buf = Vec::new();
    let config = Filters::default();
    SetFilterConfiguration::new(&config).write_as_binary(&mut buf).unwrap();
    assert!(buf.len() > 0, "Command didn't write anything");
    assert_eq!(buf.as_slice(), &[1, 2, 4, 0], "Wrong data");
}

#[test]
fn codec_works() {
    let mut buf = Vec::new();
    let config = Codec::default();
    SetPcm3060Configuration::new(&config).write_as_binary(&mut buf).unwrap();
    assert!(buf.len() > 0, "Command didn't write anything");
    assert_eq!(buf.as_slice(), &[2, 2, 8, 0, 0, 0, 0, 0], "Wrong data")
}

#[test]
fn configuration_works() {
    let mut buf = Vec::new();
    let prep_config = Preprocessing::new(gain_wire_bits(0.0), gain_wire_bits(0.0), false);
    let filters_config = Filters::default();
    let codec_config = Codec::default();

    let prep = SetPreprocessingConfiguration::new(&prep_config);
    let filters = SetFilterConfiguration::new(&filters_config);
    let codec = SetPcm3060Configuration::new(&codec_config);
    SetConfiguration::new(prep, filters, codec).write_as_binary(&mut buf).unwrap();
    assert!(buf.len() > 0, "Command didn't write anything");
    assert_eq!(
        buf.as_slice(),
        &[
            4, 0, 32, 0, 0, 2, 16, 0, 0, 0, 128, 191, 0, 0, 128, 191, 0, 0, 0, 0, 1, 2, 4, 0,
            2, 2, 8, 0, 0, 0, 0, 0
        ],
        "Wrong data"
    )
}

#[test]
fn reset_works() {
    let mut buf = Vec::new();
    FactoryReset::new().write_as_binary(&mut buf).unwrap();
    assert!(buf.len() > 0, "Command didn't write anything");
    assert_eq!(buf.as_slice(), &[8, 0, 4, 0], "Wrong data")
}

#[test]
fn save_config_works() {
    let mut buf = Vec::new();
    SaveConfiguration::new().write_as_binary(&mut buf).unwrap();
    assert!(buf.len() > 0, "Command didn't write anything");
    assert_eq!(buf.as_slice(), &[7, 0, 4, 0], "Wrong data")
}

#[test]
fn get_config_works() {
    let mut buf = Vec::new();
    GetStoredConfiguration::new().write_as_binary(&mut buf).unwrap();
    assert!(buf.len() > 0, "Command didn't write anything");
    assert_eq!(buf.as_slice(), &[6, 0, 4, 0], "Wrong data")
}
