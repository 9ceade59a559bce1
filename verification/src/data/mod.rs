//! Data model of a CD-i disc image: files, sectors and their subheaders.

pub mod cdi_coding_info;
pub mod cdi_file;
pub mod cdi_sector;
pub mod cdi_submode_info;

use vstd::prelude::*;

verus! {

/// Layout families a color table can be stored in.
#[derive(Clone, Copy, Debug, PartialEq, Eq, Structural)]
pub enum CdiPaletteType {
    RGB,
    Indexed,
    Clut,
}

/// Category of a sector, resolved from its submode byte with precedence
/// Audio > Video > Data > Empty.
#[derive(Clone, Copy, Debug, PartialEq, Eq, Structural)]
pub enum CdiSectorType {
    Data,
    Audio,
    Video,
    Empty,
    Message,
}

/// Video encodings named by the 4-bit coding field of the coding-info byte.
/// The wire values run CLUT4 = 0 through QHY = 8, with MPEG pinned to 15;
/// all other values are reserved.
#[derive(Clone, Copy, Debug, PartialEq, Eq, Structural)]
pub enum CdiVideoType {
    CLUT4,
    CLUT7,
    CLUT8,
    RL3,
    RL7,
    DYUV,
    RGB555L,
    RGB555H,
    QHY,
    MPEG,
    Reserved,
}

/// The four subheader bytes, in the order they appear at byte offset 16 of
/// a sector: file number, channel number, submode, coding info.
#[derive(Clone, Copy, Debug, PartialEq, Eq, Structural)]
pub enum CdiSubHeaderByte {
    FileNumber,
    ChannelNumber,
    Submode,
    CodingInfo,
}

/// The flag bits of the submode byte, least significant (EOR) to most
/// significant (EOF); `Any` stands for the mask that gathers the four
/// content bits {EOR, Video, Audio, Data} tested by the empty-sector check.
#[derive(Clone, Copy, Debug, PartialEq, Eq, Structural)]
pub enum SubModeBit {
    EOR,
    Video,
    Audio,
    Data,
    Trigger,
    Form,
    RealTime,
    EOF,
    Any,
}

} // verus!
