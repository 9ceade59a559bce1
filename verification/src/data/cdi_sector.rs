//! A single 2352-byte sector of a CD-i disc image.

use vstd::prelude::*;
use crate::data::cdi_coding_info::CdiCodingInfo;
use crate::data::cdi_submode_info::SubModeInfo;
use crate::data::CdiSectorType;

verus! {

/// Length in bytes of a raw physical sector.
pub const SECTOR_SIZE: usize = 2352;

/// Length in bytes of the sector header that precedes the subheader.
pub const HEADER_SIZE: usize = 16;

/// Length in bytes of the subheader that follows the header.
pub const SUBHEADER_SIZE: usize = 8;

/// Payload length of a Data sector.
pub const SECTOR_DATA_SIZE: usize = 2048;

/// Payload length of a Video sector.
pub const SECTOR_VIDEO_SIZE: usize = 2324;

/// Payload length of an Audio sector.
pub const SECTOR_AUDIO_SIZE: usize = 2304;

/// One 2352-byte sector together with its decoded subheader.
///
/// Byte layout of `sector_data`: bytes 0-15 header, byte 16 file number,
/// byte 17 channel number, byte 18 submode, byte 19 coding info (the
/// subheader repeats these four bytes at 20-23), bytes 24 and up payload.
pub struct CdiSector {
    pub sector_index: u32,
    pub sector_data: Vec<u8>,
    pub sector_sub_header_data: Vec<u8>,
    pub coding_info: CdiCodingInfo,
    pub submode_info: SubModeInfo,
}

/// Category of a submode byte, with precedence Audio > Video > Data when
/// several of the content bits are set at once.
pub open spec fn spec_sector_type(s: SubModeInfo) -> CdiSectorType {
    if s.spec_is_audio() {
        CdiSectorType::Audio
    } else if s.spec_is_video() {
        CdiSectorType::Video
    } else if s.spec_is_data() {
        CdiSectorType::Data
    } else {
        CdiSectorType::Empty
    }
}

/// Payload length of a sector of the given category; every category that
/// is not Audio or Video falls back to the Data window.
pub open spec fn spec_payload_len(t: CdiSectorType) -> int {
    match t {
        CdiSectorType::Video => SECTOR_VIDEO_SIZE as int,
        CdiSectorType::Audio => SECTOR_AUDIO_SIZE as int,
        _ => SECTOR_DATA_SIZE as int,
    }
}

impl CdiSector {
    /// The decoded subheader agrees with the raw bytes of the sector.
    pub open spec fn wf(self) -> bool {
        &&& self.sector_data@.len() == SECTOR_SIZE
        &&& self.sector_sub_header_data@ == self.sector_data@.subrange(
            HEADER_SIZE as int,
            (HEADER_SIZE + SUBHEADER_SIZE) as int,
        )
        &&& self.submode_info.byte == self.sector_data@[HEADER_SIZE + 2]
        &&& self.submode_info.channel == self.sector_data@[HEADER_SIZE + 1]
        &&& self.submode_info.coding_info == self.sector_data@[HEADER_SIZE + 3]
        &&& self.coding_info.byte == self.sector_data@[HEADER_SIZE + 3]
    }

    pub fn new(sector_index: u32, sector_data: Vec<u8>) -> (r: Self)
        requires
            sector_data@.len() == SECTOR_SIZE,
        ensures
            r.wf(),
            r.sector_index == sector_index,
            r.sector_data@ == sector_data@,
    {
        let coding_info = CdiCodingInfo::new(sector_data[HEADER_SIZE + 3]);
        let submode_info = SubModeInfo::new(
            sector_data[HEADER_SIZE + 2],
            sector_data[HEADER_SIZE + 1],
            sector_data[HEADER_SIZE + 3],
        );
        let mut sub_header_data: Vec<u8> = Vec::new();
        let mut i: usize = HEADER_SIZE;
        while i < HEADER_SIZE + SUBHEADER_SIZE
            invariant
                HEADER_SIZE <= i <= HEADER_SIZE + SUBHEADER_SIZE,
                sector_data@.len() == SECTOR_SIZE,
                sub_header_data@ == sector_data@.subrange(HEADER_SIZE as int, i as int),
            decreases HEADER_SIZE + SUBHEADER_SIZE - i,
        {
            sub_header_data.push(sector_data[i]);
            proof {
                assert(sub_header_data@ =~= sector_data@.subrange(
                    HEADER_SIZE as int,
                    i + 1,
                ));
            }
            i = i + 1;
        }
        CdiSector {
            sector_index,
            sector_data,
            sector_sub_header_data: sub_header_data,
            coding_info,
            submode_info,
        }
    }

    pub fn sector_index(&self) -> (r: u32)
        ensures
            r == self.sector_index,
    {
        self.sector_index
    }

    /// File number, read from subheader byte 0 (sector byte 16).
    pub fn file_number(&self) -> (r: u8)
        requires
            self.wf(),
        ensures
            r == self.sector_data@[HEADER_SIZE as int],
    {
        self.sector_sub_header_data[0]
    }

    /// Channel number, read from subheader byte 1 (sector byte 17).
    pub fn channel_number(&self) -> (r: u8)
        requires
            self.wf(),
        ensures
            r == self.sector_data@[HEADER_SIZE + 1],
    {
        self.sector_sub_header_data[1]
    }

    pub fn submode(&self) -> (r: SubModeInfo)
        ensures
            r == self.submode_info,
    {
        self.submode_info
    }

    pub fn coding_info(&self) -> (r: CdiCodingInfo)
        ensures
            r == self.coding_info,
    {
        self.coding_info
    }

    /// Category of this sector, resolved from the submode byte with
    /// precedence Audio > Video > Data > Empty.
    pub fn get_sector_type(&self) -> (r: CdiSectorType)
        ensures
            r == spec_sector_type(self.submode_info),
    {
        if self.submode_info.is_audio() {
            CdiSectorType::Audio
        } else if self.submode_info.is_video() {
            CdiSectorType::Video
        } else if self.submode_info.is_data() {
            CdiSectorType::Data
        } else {
            CdiSectorType::Empty
        }
    }

    /// The payload window that follows the header and subheader, sized by
    /// the sector's category: 2048 bytes for Data, 2324 for Video, 2304
    /// for Audio, with every other category falling back to the Data size.
    pub fn get_sector_data_by_type(&self) -> (r: Vec<u8>)
        requires
            self.wf(),
        ensures
            r@ == self.sector_data@.subrange(
                (HEADER_SIZE + SUBHEADER_SIZE) as int,
                HEADER_SIZE + SUBHEADER_SIZE + spec_payload_len(
                    spec_sector_type(self.submode_info),
                ),
            ),
    {
        let start_offset: usize = HEADER_SIZE + SUBHEADER_SIZE;
        let take_len: usize = match self.get_sector_type() {
            CdiSectorType::Video => SECTOR_VIDEO_SIZE,
            CdiSectorType::Data => SECTOR_DATA_SIZE,
            CdiSectorType::Audio => SECTOR_AUDIO_SIZE,
            _ => SECTOR_DATA_SIZE,
        };
        let mut payload: Vec<u8> = Vec::new();
        let mut i: usize = 0;
        while i < take_len
            invariant
                i <= take_len,
                take_len == spec_payload_len(spec_sector_type(self.submode_info)),
                start_offset == HEADER_SIZE + SUBHEADER_SIZE,
                self.sector_data@.len() == SECTOR_SIZE,
                payload@ == self.sector_data@.subrange(
                    start_offset as int,
                    start_offset + i,
                ),
            decreases take_len - i,
        {
            payload.push(self.sector_data[start_offset + i]);
            proof {
                assert(payload@ =~= self.sector_data@.subrange(
                    start_offset as int,
                    start_offset + i + 1,
                ));
            }
            i = i + 1;
        }
        payload
    }
}

} // verus!
