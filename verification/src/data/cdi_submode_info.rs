//! Interpretation of the submode subheader byte of a sector.

use vstd::prelude::*;

verus! {

/// The submode byte of a sector's subheader, carried together with the
/// channel number and the coding-info byte for convenience.
///
/// Bit positions of the submode byte, most significant first:
/// EOF, RealTime, Form2, Trigger, Data, Audio, Video, EOR.
#[derive(Clone, Copy, Debug)]
pub struct SubModeInfo {
    pub coding_info: u8,
    pub byte: u8,
    pub channel: u8,
}

/// Mask over the submode byte gathering the four content flag bits
/// {EOR, Video, Audio, Data}; a sector is empty only when all of them
/// are clear.
pub const SUBMODE_CONTENT_MASK: u8 = 0x0F;

impl SubModeInfo {
    /// End-of-file flag (bit 7).
    pub open spec fn spec_is_eof(&self) -> bool {
        self.byte & 0x80 != 0
    }

    /// Real-time flag (bit 6).
    pub open spec fn spec_is_rtf(&self) -> bool {
        self.byte & 0x40 != 0
    }

    /// Form-2 flag (bit 5).
    pub open spec fn spec_is_form2(&self) -> bool {
        self.byte & 0x20 != 0
    }

    /// Trigger flag (bit 4).
    pub open spec fn spec_is_trigger(&self) -> bool {
        self.byte & 0x10 != 0
    }

    /// Data flag (bit 3).
    pub open spec fn spec_is_data(&self) -> bool {
        self.byte & 0x08 != 0
    }

    /// Audio flag (bit 2).
    pub open spec fn spec_is_audio(&self) -> bool {
        self.byte & 0x04 != 0
    }

    /// Video flag (bit 1).
    pub open spec fn spec_is_video(&self) -> bool {
        self.byte & 0x02 != 0
    }

    /// End-of-record flag (bit 0).
    pub open spec fn spec_is_eor(&self) -> bool {
        self.byte & 0x01 != 0
    }

    /// A sector is empty exactly when the content flag bits
    /// {EOR, Video, Audio, Data} are all clear and both the channel number
    /// and the coding-info byte are zero.
    pub open spec fn spec_is_empty_sector(&self) -> bool {
        &&& !self.spec_is_eor()
        &&& !self.spec_is_video()
        &&& !self.spec_is_audio()
        &&& !self.spec_is_data()
        &&& self.channel == 0
        &&& self.coding_info == 0
    }

    pub fn new(b: u8, channel: u8, coding_info: u8) -> (r: Self)
        ensures
            r.byte == b,
            r.channel == channel,
            r.coding_info == coding_info,
    {
        SubModeInfo { byte: b, channel, coding_info }
    }

    pub fn is_empty_sector(&self) -> (r: bool)
        ensures
            r == self.spec_is_empty_sector(),
    {
        proof {
            let b = self.byte;
            assert((b & SUBMODE_CONTENT_MASK == 0) == (b & 0x01 == 0 && b & 0x02 == 0
                && b & 0x04 == 0 && b & 0x08 == 0)) by (bit_vector);
        }
        (self.byte & SUBMODE_CONTENT_MASK) == 0 && self.channel == 0 && self.coding_info == 0
    }

    #[verifier::when_used_as_spec(spec_is_eof)]
    pub fn is_eof(&self) -> (r: bool)
        ensures
            r == self.spec_is_eof(),
    {
        (self.byte & 0x80) != 0
    }

    #[verifier::when_used_as_spec(spec_is_rtf)]
    pub fn is_rtf(&self) -> (r: bool)
        ensures
            r == self.spec_is_rtf(),
    {
        (self.byte & 0x40) != 0
    }

    #[verifier::when_used_as_spec(spec_is_form2)]
    pub fn is_form2(&self) -> (r: bool)
        ensures
            r == self.spec_is_form2(),
    {
        (self.byte & 0x20) != 0
    }

    #[verifier::when_used_as_spec(spec_is_trigger)]
    pub fn is_trigger(&self) -> (r: bool)
        ensures
            r == self.spec_is_trigger(),
    {
        (self.byte & 0x10) != 0
    }

    #[verifier::when_used_as_spec(spec_is_data)]
    pub fn is_data(&self) -> (r: bool)
        ensures
            r == self.spec_is_data(),
    {
        (self.byte & 0x08) != 0
    }

    #[verifier::when_used_as_spec(spec_is_audio)]
    pub fn is_audio(&self) -> (r: bool)
        ensures
            r == self.spec_is_audio(),
    {
        (self.byte & 0x04) != 0
    }

    #[verifier::when_used_as_spec(spec_is_video)]
    pub fn is_video(&self) -> (r: bool)
        ensures
            r == self.spec_is_video(),
    {
        (self.byte & 0x02) != 0
    }

    #[verifier::when_used_as_spec(spec_is_eor)]
    pub fn is_eor(&self) -> (r: bool)
        ensures
            r == self.spec_is_eor(),
    {
        (self.byte & 0x01) != 0
    }
}

} // verus!
