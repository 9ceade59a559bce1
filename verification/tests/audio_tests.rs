use cdi_media::data::cdi_coding_info::CdiCodingInfo;
use cdi_media::helpers::audio_helpers::decode_level_a_sound_group;
use cdi_media::helpers::audio_helpers::decode_level_bc_sound_group;
use cdi_media::helpers::audio_helpers::limit_sample;
use cdi_media::helpers::audio_helpers::AudioDecodeError;

#[test]
fn test_limit_sample() {
    assert_eq!(limit_sample(0), 0);
    assert_eq!(limit_sample(32767), 32767);
    assert_eq!(limit_sample(32768), 32767);
    assert_eq!(limit_sample(-32768), -32768);
    assert_eq!(limit_sample(-32769), -32768);
    assert_eq!(limit_sample(1000000), 32767);
    assert_eq!(limit_sample(-1000000), -32768);
}

#[test]
fn test_level_a_group_sample_counts() {
    // a Level A group is exactly 128 bytes and yields 112 samples
    let data = vec![0u8; 128];
    let mut left = Vec::new();
    let mut right = Vec::new();
    let r = decode_level_a_sound_group(true, &data, &mut left, &mut right);
    assert_eq!(r, Ok(112));
    assert_eq!(left.len(), 56);
    assert_eq!(right.len(), 56);

    let mut left = Vec::new();
    let mut right = Vec::new();
    let r = decode_level_a_sound_group(false, &data, &mut left, &mut right);
    assert_eq!(r, Ok(112));
    assert_eq!(left.len(), 112);
    assert_eq!(right.len(), 0);
}

#[test]
fn test_level_a_sample_values() {
    // all units: range 0, filter 0, so gain = 2^8 = 256 and no history term
    let mut data = vec![0u8; 128];
    // unit 0 residuals sit at 16 + 4 * ss
    data[16] = 1; // +1 -> 256
    data[20] = 0xFF; // -1 -> -256
    data[24] = 0x7F; // +127 -> 32512
    data[28] = 0x80; // -128 -> -32768
    let mut left = Vec::new();
    let mut right = Vec::new();
    assert_eq!(decode_level_a_sound_group(false, &data, &mut left, &mut right), Ok(112));
    assert_eq!(left[0], 256);
    assert_eq!(left[1], -256);
    assert_eq!(left[2], 32512);
    assert_eq!(left[3], -32768);
    assert_eq!(left[4], 0);
}

#[test]
fn test_level_a_filter_zero_closed_form() {
    // filter 0 with any range: sample = clamp(residual * 2^(8 - range))
    let mut data = vec![0u8; 128];
    data[0] = 0x03; // unit 0: range 3, filter 0 -> gain 32
    data[16] = 5; // 5 * 32 = 160
    data[20] = 0xFD; // -3 * 32 = -96
    let mut left = Vec::new();
    let mut right = Vec::new();
    assert_eq!(decode_level_a_sound_group(false, &data, &mut left, &mut right), Ok(112));
    assert_eq!(left[0], 160);
    assert_eq!(left[1], -96);
}

#[test]
fn test_level_a_stereo_unit_parity() {
    let mut data = vec![0u8; 128];
    data[16] = 1; // unit 0, first sample -> left
    data[17] = 2; // unit 1, first sample -> right
    let mut left = Vec::new();
    let mut right = Vec::new();
    assert_eq!(decode_level_a_sound_group(true, &data, &mut left, &mut right), Ok(112));
    assert_eq!(left[0], 256);
    assert_eq!(right[0], 512);
}

#[test]
fn test_level_a_filter_out_of_range() {
    let mut data = vec![0u8; 128];
    data[2] = 0x40; // unit 2: filter 4, outside the coefficient table
    let mut left = vec![7i16];
    let mut right = Vec::new();
    let r = decode_level_a_sound_group(true, &data, &mut left, &mut right);
    assert_eq!(r, Err(AudioDecodeError::FilterOutOfRange));
    // the output is untouched on failure
    assert_eq!(left, vec![7i16]);
    assert_eq!(right.len(), 0);
}

#[test]
fn test_level_a_range_out_of_range() {
    let mut data = vec![0u8; 128];
    data[1] = 0x09; // unit 1: range 9 exceeds the Level A gain exponent 8
    let mut left = Vec::new();
    let mut right = Vec::new();
    let r = decode_level_a_sound_group(false, &data, &mut left, &mut right);
    assert_eq!(r, Err(AudioDecodeError::RangeOutOfRange));
    assert_eq!(left.len(), 0);
}

#[test]
fn test_level_a_first_bad_unit_decides() {
    let mut data = vec![0u8; 128];
    data[0] = 0x09; // unit 0: bad range
    data[1] = 0x40; // unit 1: bad filter
    let mut left = Vec::new();
    let mut right = Vec::new();
    // the scan hits unit 0's range first
    assert_eq!(
        decode_level_a_sound_group(false, &data, &mut left, &mut right),
        Err(AudioDecodeError::RangeOutOfRange)
    );
}

#[test]
fn test_level_bc_group_sample_counts() {
    // a Level B/C group is exactly 128 bytes and yields 224 samples
    let data = vec![0u8; 128];
    let mut left = Vec::new();
    let mut right = Vec::new();
    let r = decode_level_bc_sound_group(true, &data, &mut left, &mut right);
    assert_eq!(r, Ok(224));
    assert_eq!(left.len(), 112);
    assert_eq!(right.len(), 112);

    let mut left = Vec::new();
    let mut right = Vec::new();
    let r = decode_level_bc_sound_group(false, &data, &mut left, &mut right);
    assert_eq!(r, Ok(224));
    assert_eq!(left.len(), 224);
    assert_eq!(right.len(), 0);
}

#[test]
fn test_level_bc_nibble_residuals() {
    // all units: range 0, filter 0, so gain = 2^12 = 4096
    let mut data = vec![0u8; 128];
    // sample bytes at 16 + 4 * ss + u / 2; low nibble = even unit
    data[16] = 0x21; // unit 0: +1, unit 1: +2
    data[20] = 0x0F; // unit 0, second sample: nibble 15 -> -1
    let mut left = Vec::new();
    let mut right = Vec::new();
    assert_eq!(decode_level_bc_sound_group(true, &data, &mut left, &mut right), Ok(224));
    assert_eq!(left[0], 4096);
    assert_eq!(right[0], 8192);
    assert_eq!(left[1], -4096);
}

#[test]
fn test_level_bc_predictor_history() {
    let mut data = vec![0u8; 128];
    // unit 0: range 12 (gain 1), filter 2 (k0 = 460, k1 = -208)
    data[4] = 0x2C;
    data[16] = 0x01; // residual +1 -> sample 1
    data[20] = 0x01; // +1 + (460 * 1) / 256 = 1 + 1 -> 2
    data[24] = 0x00; // 0 + (460 * 2 - 208 * 1) / 256 = 712 / 256 -> 2
    let mut left = Vec::new();
    let mut right = Vec::new();
    assert_eq!(decode_level_bc_sound_group(false, &data, &mut left, &mut right), Ok(224));
    assert_eq!(left[0], 1);
    assert_eq!(left[1], 2);
    assert_eq!(left[2], 2);
}

#[test]
fn test_level_bc_range_out_of_range() {
    let mut data = vec![0u8; 128];
    data[4] = 0x0D; // unit 0: range 13 exceeds the Level B/C gain exponent 12
    let mut left = Vec::new();
    let mut right = Vec::new();
    assert_eq!(
        decode_level_bc_sound_group(false, &data, &mut left, &mut right),
        Err(AudioDecodeError::RangeOutOfRange)
    );
}

#[test]
fn test_coding_info_audio_fields() {
    // emphasis set, 8-bit samples, 18.9 kHz, stereo
    let c = CdiCodingInfo::new(0b0101_0101);
    assert!(c.emphasis());
    assert_eq!(c.bits_per_sample(), 1);
    assert_eq!(c.bits_per_sample_string(), "8-bit");
    assert_eq!(c.bits_per_sample_value(), 8);
    assert_eq!(c.sample_rate(), 1);
    assert_eq!(c.sample_rate_string(), "18.9 kHz");
    assert_eq!(c.sample_rate_value(), 18900);
    assert!(c.is_stereo());
    assert!(!c.is_mono());

    let c = CdiCodingInfo::new(0);
    assert!(!c.emphasis());
    assert_eq!(c.bits_per_sample_string(), "4-bit");
    assert_eq!(c.bits_per_sample_value(), 4);
    assert_eq!(c.sample_rate_string(), "37.8 kHz");
    assert_eq!(c.sample_rate_value(), 37800);
    assert!(c.is_mono());

    let c = CdiCodingInfo::new(0b0010_1000);
    assert_eq!(c.bits_per_sample_string(), "Reserved");
    assert_eq!(c.bits_per_sample_value(), 0);
    assert_eq!(c.sample_rate_string(), "Reserved");
    assert_eq!(c.sample_rate_value(), 0);
}

#[test]
fn test_coding_info_video_fields() {
    let c = CdiCodingInfo::new(0b1100_0101);
    assert!(c.is_ascf());
    assert!(c.is_odd_lines());
    assert_eq!(c.resolution(), 0);
    assert_eq!(c.resolution_string(), "Normal");
    assert_eq!(c.coding(), 5);
    assert_eq!(c.video_string(), "DYUV");

    assert_eq!(CdiCodingInfo::new(0x10).resolution_string(), "Double");
    assert_eq!(CdiCodingInfo::new(0x20).resolution_string(), "Reserved");
    assert_eq!(CdiCodingInfo::new(0x30).resolution_string(), "High");

    assert_eq!(CdiCodingInfo::new(0x00).video_string(), "CLUT4");
    assert_eq!(CdiCodingInfo::new(0x01).video_string(), "CLUT7");
    assert_eq!(CdiCodingInfo::new(0x02).video_string(), "CLUT8");
    assert_eq!(CdiCodingInfo::new(0x03).video_string(), "RL3");
    assert_eq!(CdiCodingInfo::new(0x04).video_string(), "RL7");
    assert_eq!(CdiCodingInfo::new(0x06).video_string(), "RGB555L");
    assert_eq!(CdiCodingInfo::new(0x07).video_string(), "RGB555H");
    assert_eq!(CdiCodingInfo::new(0x08).video_string(), "QHY");
    assert_eq!(CdiCodingInfo::new(0x0F).video_string(), "MPEG");
    assert_eq!(CdiCodingInfo::new(0x09).video_string(), "Reserved");
}
