//! Interpretation of the coding-info subheader byte of a sector.

use vstd::prelude::*;

verus! {

/// The coding-info byte of a sector's subheader.
///
/// The byte has two mutually exclusive interpretations, selected by the
/// sector's resolved category: the audio accessors read emphasis,
/// bits-per-sample, sample-rate and mono/stereo fields, while the video
/// accessors read the ASCF flag, odd-lines flag, resolution and coding
/// type fields from the same bits.
#[derive(Clone, Copy, Debug)]
pub struct CdiCodingInfo {
    pub byte: u8,
}

impl CdiCodingInfo {
    /// Audio: emphasis flag (bit 6).
    pub open spec fn spec_emphasis(&self) -> bool {
        (self.byte >> 6) & 0x01 == 1
    }

    /// Audio: 2-bit bits-per-sample field (bits 4-5).
    pub open spec fn spec_bits_per_sample(&self) -> u8 {
        (self.byte >> 4) & 0x03
    }

    /// Audio: 2-bit sample-rate field (bits 2-3).
    pub open spec fn spec_sample_rate(&self) -> u8 {
        (self.byte >> 2) & 0x03
    }

    /// Audio: mono/stereo field (bits 0-1); 0 is mono, 1 is stereo.
    pub open spec fn spec_layout(&self) -> u8 {
        self.byte & 0x03
    }

    /// Video: application-specific coding flag (bit 7).
    pub open spec fn spec_is_ascf(&self) -> bool {
        (self.byte >> 7) & 0x01 == 1
    }

    /// Video: odd-lines flag (bit 6).
    pub open spec fn spec_is_odd_lines(&self) -> bool {
        (self.byte >> 6) & 0x01 == 1
    }

    /// Video: 2-bit resolution field (bits 4-5).
    pub open spec fn spec_resolution(&self) -> u8 {
        (self.byte >> 4) & 0x03
    }

    /// Video: 4-bit coding type field (bits 0-3).
    pub open spec fn spec_coding(&self) -> u8 {
        self.byte & 0x0F
    }

    pub fn new(b: u8) -> (r: Self)
        ensures
            r.byte == b,
    {
        CdiCodingInfo { byte: b }
    }

    #[verifier::when_used_as_spec(spec_emphasis)]
    pub fn emphasis(&self) -> (r: bool)
        ensures
            r == self.spec_emphasis(),
    {
        (self.byte >> 6) & 0x01 == 1
    }

    #[verifier::when_used_as_spec(spec_bits_per_sample)]
    pub fn bits_per_sample(&self) -> (r: u8)
        ensures
            r == self.spec_bits_per_sample(),
    {
        (self.byte >> 4) & 0x03
    }

    /// Label of the bits-per-sample field: 0 is 4-bit, 1 is 8-bit, the two
    /// remaining values are reserved.
    pub fn bits_per_sample_string(&self) -> (r: String)
        ensures
            self.spec_bits_per_sample() == 0 ==> r@ == "4-bit"@,
            self.spec_bits_per_sample() == 1 ==> r@ == "8-bit"@,
            self.spec_bits_per_sample() >= 2 ==> r@ == "Reserved"@,
    {
        match self.bits_per_sample() {
            0 => "4-bit".to_owned(),
            1 => "8-bit".to_owned(),
            _ => "Reserved".to_owned(),
        }
    }

    /// Numeric bits-per-sample: 4 or 8, with 0 standing for the reserved
    /// field values.
    pub fn bits_per_sample_value(&self) -> (r: u8)
        ensures
            self.spec_bits_per_sample() == 0 ==> r == 4,
            self.spec_bits_per_sample() == 1 ==> r == 8,
            self.spec_bits_per_sample() >= 2 ==> r == 0,
    {
        match self.bits_per_sample() {
            0 => 4,
            1 => 8,
            _ => 0,
        }
    }

    #[verifier::when_used_as_spec(spec_sample_rate)]
    pub fn sample_rate(&self) -> (r: u8)
        ensures
            r == self.spec_sample_rate(),
    {
        (self.byte >> 2) & 0x03
    }

    /// Label of the sample-rate field: 0 is 37.8 kHz, 1 is 18.9 kHz, the
    /// two remaining values are reserved.
    pub fn sample_rate_string(&self) -> (r: String)
        ensures
            self.spec_sample_rate() == 0 ==> r@ == "37.8 kHz"@,
            self.spec_sample_rate() == 1 ==> r@ == "18.9 kHz"@,
            self.spec_sample_rate() >= 2 ==> r@ == "Reserved"@,
    {
        match self.sample_rate() {
            0 => "37.8 kHz".to_owned(),
            1 => "18.9 kHz".to_owned(),
            _ => "Reserved".to_owned(),
        }
    }

    /// Numeric sample rate in Hz: 37800 or 18900, with 0 standing for the
    /// reserved field values.
    pub fn sample_rate_value(&self) -> (r: u32)
        ensures
            self.spec_sample_rate() == 0 ==> r == 37800,
            self.spec_sample_rate() == 1 ==> r == 18900,
            self.spec_sample_rate() >= 2 ==> r == 0,
    {
        match self.sample_rate() {
            0 => 37800,
            1 => 18900,
            _ => 0,
        }
    }

    pub fn is_stereo(&self) -> (r: bool)
        ensures
            r == (self.spec_layout() == 1),
    {
        self.byte & 0x03 == 1
    }

    pub fn is_mono(&self) -> (r: bool)
        ensures
            r == (self.spec_layout() == 0),
    {
        self.byte & 0x03 == 0
    }

    #[verifier::when_used_as_spec(spec_is_ascf)]
    pub fn is_ascf(&self) -> (r: bool)
        ensures
            r == self.spec_is_ascf(),
    {
        (self.byte >> 7) & 0x01 == 1
    }

    #[verifier::when_used_as_spec(spec_is_odd_lines)]
    pub fn is_odd_lines(&self) -> (r: bool)
        ensures
            r == self.spec_is_odd_lines(),
    {
        (self.byte >> 6) & 0x01 == 1
    }

    #[verifier::when_used_as_spec(spec_resolution)]
    pub fn resolution(&self) -> (r: u8)
        ensures
            r == self.spec_resolution(),
    {
        (self.byte >> 4) & 0x03
    }

    /// Label of the resolution field: 0 Normal, 1 Double, 3 High; 2 is
    /// reserved.
    pub fn resolution_string(&self) -> (r: String)
        ensures
            self.spec_resolution() == 0 ==> r@ == "Normal"@,
            self.spec_resolution() == 1 ==> r@ == "Double"@,
            self.spec_resolution() == 2 ==> r@ == "Reserved"@,
            self.spec_resolution() == 3 ==> r@ == "High"@,
            self.spec_resolution() >= 4 ==> r@ == "Reserved"@,
    {
        match self.resolution() {
            0 => "Normal".to_owned(),
            1 => "Double".to_owned(),
            2 => "Reserved".to_owned(),
            3 => "High".to_owned(),
            _ => "Reserved".to_owned(),
        }
    }

    #[verifier::when_used_as_spec(spec_coding)]
    pub fn coding(&self) -> (r: u8)
        ensures
            r == self.spec_coding(),
    {
        self.byte & 0x0F
    }

    /// Label of the 4-bit video coding type: CLUT4 = 0 through QHY = 8,
    /// MPEG pinned to 15, every other value reserved.
    pub fn video_string(&self) -> (r: String)
        ensures
            self.spec_coding() == 0 ==> r@ == "CLUT4"@,
            self.spec_coding() == 1 ==> r@ == "CLUT7"@,
            self.spec_coding() == 2 ==> r@ == "CLUT8"@,
            self.spec_coding() == 3 ==> r@ == "RL3"@,
            self.spec_coding() == 4 ==> r@ == "RL7"@,
            self.spec_coding() == 5 ==> r@ == "DYUV"@,
            self.spec_coding() == 6 ==> r@ == "RGB555L"@,
            self.spec_coding() == 7 ==> r@ == "RGB555H"@,
            self.spec_coding() == 8 ==> r@ == "QHY"@,
            self.spec_coding() == 15 ==> r@ == "MPEG"@,
            9 <= self.spec_coding() < 15 ==> r@ == "Reserved"@,
    {
        match self.coding() {
            0 => "CLUT4".to_owned(),
            1 => "CLUT7".to_owned(),
            2 => "CLUT8".to_owned(),
            3 => "RL3".to_owned(),
            4 => "RL7".to_owned(),
            5 => "DYUV".to_owned(),
            6 => "RGB555L".to_owned(),
            7 => "RGB555H".to_owned(),
            8 => "QHY".to_owned(),
            15 => "MPEG".to_owned(),
            _ => "Reserved".to_owned(),
        }
    }
}

} // verus!
