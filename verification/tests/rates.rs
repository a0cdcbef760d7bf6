//! Tests of the conversion helpers: fixed-point rescaling, the supported
//! rate enumeration, frame-size arithmetic and the diagnostic carrier.
use ogg_opus::common::{
    calc_sr, calc_sr_u64, opus_channels, validate_rate, CodecChannels, CodecRate, FinalRange,
};
use ogg_opus::encode::{calc_fr_size, granule, to_samples};

#[test]
fn calc_sr_exact_values() {
    assert_eq!(calc_sr(312, 48000, 48000), 312);
    assert_eq!(calc_sr(312, 48000, 16000), 104);
    assert_eq!(calc_sr(100, 48000, 8000), 16); // truncates 16.67
    assert_eq!(calc_sr(104, 16000, 48000), 312);
    assert_eq!(calc_sr(0, 8000, 48000), 0);
}

#[test]
fn calc_sr_u64_exact_values() {
    assert_eq!(calc_sr_u64(1234567, 8000, 48000), 7407402);
    assert_eq!(calc_sr_u64(7407402, 48000, 8000), 1234567);
    assert_eq!(calc_sr_u64(7, 12000, 16000), 9);
    assert_eq!(calc_sr_u64(9, 16000, 12000), 6);
}

#[test]
fn scale_round_trip_within_one_unit() {
    // Up to a finer rate and back: exact or one short, for every
    // supported ascending pair.
    let rates = [8000u32, 12000, 16000, 24000, 48000];
    for &a in &rates {
        for &b in &rates {
            if a <= b {
                for x in [0u64, 1, 5, 999, 48001, 1234567] {
                    let there = calc_sr_u64(x, a, b);
                    let back = calc_sr_u64(there, b, a);
                    assert!(back == x || back + 1 == x, "{x} {a} {b} -> {back}");
                }
            }
        }
    }
    // Down and back up can lose more than one unit.
    assert_eq!(calc_sr_u64(calc_sr_u64(5, 48000, 8000), 8000, 48000), 0);
}

#[test]
fn validate_rate_enumerates_supported_rates() {
    assert_eq!(validate_rate(8000), Some(CodecRate::Hz8000));
    assert_eq!(validate_rate(12000), Some(CodecRate::Hz12000));
    assert_eq!(validate_rate(16000), Some(CodecRate::Hz16000));
    assert_eq!(validate_rate(24000), Some(CodecRate::Hz24000));
    assert_eq!(validate_rate(48000), Some(CodecRate::Hz48000));
    assert_eq!(validate_rate(44100), None);
    assert_eq!(validate_rate(0), None);
    assert_eq!(validate_rate(48001), None);
    assert_eq!(validate_rate(16000).unwrap().hz(), 16000);
}

#[test]
fn opus_channels_mapping() {
    assert_eq!(opus_channels(0), CodecChannels::Mono);
    assert_eq!(opus_channels(1), CodecChannels::Mono);
    assert_eq!(opus_channels(2), CodecChannels::Stereo);
    assert_eq!(CodecChannels::Mono.count(), 1);
    assert_eq!(CodecChannels::Stereo.count(), 2);
}

#[test]
fn frame_arithmetic_exact_values() {
    assert_eq!(to_samples(48000, 20), 960);
    assert_eq!(to_samples(8000, 20), 160);
    assert_eq!(calc_fr_size(25, 1, 48000), 120);
    assert_eq!(calc_fr_size(25, 2, 48000), 240);
    assert_eq!(calc_fr_size(50, 1, 8000), 40);
    assert_eq!(calc_fr_size(200, 2, 48000), 1920);
    assert_eq!(granule(960, 48000), 960);
    assert_eq!(granule(100, 8000), 600);
    assert_eq!(granule(12449, 16000), 37347);
}

#[test]
fn final_range_records_last_value() {
    let mut fr = FinalRange::new();
    assert_eq!(fr.get_final_range(), 0);
    fr.set_final_range(0xdead_beef);
    assert_eq!(fr.get_final_range(), 0xdead_beef);
    fr.set_final_range(5);
    assert_eq!(fr.get_final_range(), 5);
}
