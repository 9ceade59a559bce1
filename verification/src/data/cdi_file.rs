//! A CD-i disc image file split into its 2352-byte sectors.

use vstd::prelude::*;
use vstd::arithmetic::div_mod::lemma_fundamental_div_mod;
use crate::data::cdi_sector::CdiSector;
use crate::data::cdi_sector::SECTOR_SIZE;

verus! {

/// Sectors of a sequence that carry the video flag, in original order.
pub open spec fn filter_video(s: Seq<CdiSector>) -> Seq<CdiSector> {
    s.filter(|x: CdiSector| x.submode_info.spec_is_video())
}

/// Sectors of a sequence that carry the audio flag, in original order.
pub open spec fn filter_audio(s: Seq<CdiSector>) -> Seq<CdiSector> {
    s.filter(|x: CdiSector| x.submode_info.spec_is_audio())
}

/// Sectors of a sequence that carry the data flag, in original order.
pub open spec fn filter_data(s: Seq<CdiSector>) -> Seq<CdiSector> {
    s.filter(|x: CdiSector| x.submode_info.spec_is_data())
}

/// The raw bytes of a disc image and the sectors cut from them.
///
/// The image is split into consecutive 2352-byte sectors; a trailing run
/// of bytes shorter than one full sector is dropped, never decoded as a
/// partial sector.
pub struct CdiFile {
    pub file_name: String,
    pub data: Vec<u8>,
    pub sectors: Vec<CdiSector>,
}

impl CdiFile {
    /// Every sector is well formed, indexed in order, and holds exactly
    /// its 2352-byte window of the raw data.
    pub open spec fn wf(self) -> bool {
        &&& self.sectors@.len() == self.data@.len() as int / 2352
        &&& forall|i: int|
            0 <= i < self.sectors@.len() ==> {
                &&& (#[trigger] self.sectors@[i]).wf()
                &&& self.sectors@[i].sector_index == i
                &&& self.sectors@[i].sector_data@ == self.data@.subrange(
                    2352 * i,
                    2352 * (i + 1),
                )
            }
    }

    /// Splits a raw disc image into its sectors. The sector count is
    /// exactly `data.len() / 2352`; remainder bytes past the last full
    /// sector are dropped without affecting the count.
    pub fn new(file_name: String, data: Vec<u8>) -> (r: Self)
        requires
            data@.len() as int / 2352 <= u32::MAX,
        ensures
            r.wf(),
            r.file_name == file_name,
            r.data@ == data@,
            r.sectors@.len() == data@.len() as int / 2352,
    {
        proof {
            assert(SECTOR_SIZE == 2352);
            lemma_fundamental_div_mod(data@.len() as int, 2352);
        }
        let total: usize = data.len() / SECTOR_SIZE;
        let mut sectors: Vec<CdiSector> = Vec::new();
        let mut c: usize = 0;
        let mut base: usize = 0;
        while c < total
            invariant
                c <= total,
                base == 2352 * c,
                total == data@.len() as int / 2352,
                data@.len() <= usize::MAX,
                total <= u32::MAX,
                2352 * total <= data@.len(),
                sectors@.len() == c,
                forall|i: int|
                    0 <= i < c ==> {
                        &&& (#[trigger] sectors@[i]).wf()
                        &&& sectors@[i].sector_index == i
                        &&& sectors@[i].sector_data@ == data@.subrange(
                            2352 * i,
                            2352 * (i + 1),
                        )
                    },
            decreases total - c,
        {
            let mut chunk: Vec<u8> = Vec::new();
            let mut j: usize = 0;
            while j < 2352
                invariant
                    j <= 2352,
                    base + 2352 <= data@.len(),
                    data@.len() <= usize::MAX,
                    chunk@ == data@.subrange(base as int, base + j),
                decreases 2352 - j,
            {
                chunk.push(data[base + j]);
                proof {
                    assert(chunk@ =~= data@.subrange(base as int, base + j + 1));
                }
                j = j + 1;
            }
            let sector = CdiSector::new(c as u32, chunk);
            sectors.push(sector);
            c = c + 1;
            base = base + 2352;
        }
        CdiFile { file_name, data, sectors }
    }

    pub fn file_name(&self) -> (r: &String)
        ensures
            r == &self.file_name,
    {
        &self.file_name
    }

    /// Size in bytes of the raw disc image.
    pub fn size(&self) -> (r: u64)
        ensures
            r == self.data@.len(),
    {
        self.data.len() as u64
    }

    pub fn data(&self) -> (r: &Vec<u8>)
        ensures
            r == &self.data,
    {
        &self.data
    }

    pub fn sectors(&self) -> (r: &Vec<CdiSector>)
        ensures
            r == &self.sectors,
    {
        &self.sectors
    }

    pub fn sector(&self, index: usize) -> (r: &CdiSector)
        requires
            index < self.sectors@.len(),
        ensures
            *r == self.sectors@[index as int],
    {
        &self.sectors[index]
    }

    pub fn sector_count(&self) -> (r: usize)
        ensures
            r == self.sectors@.len(),
    {
        self.sectors.len()
    }

    /// The full 2352 raw bytes of the sector at `index`.
    pub fn sector_data(&self, index: usize) -> (r: &Vec<u8>)
        requires
            index < self.sectors@.len(),
        ensures
            r == &self.sectors@[index as int].sector_data,
    {
        &self.sectors[index].sector_data
    }

    /// The sectors whose submode byte carries the video flag, in original
    /// order.
    pub fn get_video_sectors(&self) -> (r: Vec<&CdiSector>)
        ensures
            r@.len() == filter_video(self.sectors@).len(),
            forall|i: int|
                0 <= i < r@.len() ==> *(#[trigger] r@[i]) == filter_video(self.sectors@)[i],
    {
        let mut r: Vec<&CdiSector> = Vec::new();
        let n = self.sectors.len();
        let mut i: usize = 0;
        while i < n
            invariant
                i <= n,
                n == self.sectors@.len(),
                r@.len() == filter_video(self.sectors@.take(i as int)).len(),
                forall|j: int|
                    0 <= j < r@.len() ==> *(#[trigger] r@[j]) == filter_video(
                        self.sectors@.take(i as int),
                    )[j],
            decreases n - i,
        {
            let s = &self.sectors[i];
            proof {
                self.sectors@.lemma_take_succ_push(i as int);
                self.sectors@.take(i as int).lemma_filter_push(
                    self.sectors@[i as int],
                    |x: CdiSector| x.submode_info.spec_is_video(),
                );
            }
            if s.submode_info.is_video() {
                r.push(s);
            }
            i = i + 1;
        }
        proof {
            self.sectors@.lemma_take_len();
        }
        r
    }

    /// The sectors whose submode byte carries the audio flag, in original
    /// order.
    pub fn get_audio_sectors(&self) -> (r: Vec<&CdiSector>)
        ensures
            r@.len() == filter_audio(self.sectors@).len(),
            forall|i: int|
                0 <= i < r@.len() ==> *(#[trigger] r@[i]) == filter_audio(self.sectors@)[i],
    {
        let mut r: Vec<&CdiSector> = Vec::new();
        let n = self.sectors.len();
        let mut i: usize = 0;
        while i < n
            invariant
                i <= n,
                n == self.sectors@.len(),
                r@.len() == filter_audio(self.sectors@.take(i as int)).len(),
                forall|j: int|
                    0 <= j < r@.len() ==> *(#[trigger] r@[j]) == filter_audio(
                        self.sectors@.take(i as int),
                    )[j],
            decreases n - i,
        {
            let s = &self.sectors[i];
            proof {
                self.sectors@.lemma_take_succ_push(i as int);
                self.sectors@.take(i as int).lemma_filter_push(
                    self.sectors@[i as int],
                    |x: CdiSector| x.submode_info.spec_is_audio(),
                );
            }
            if s.submode_info.is_audio() {
                r.push(s);
            }
            i = i + 1;
        }
        proof {
            self.sectors@.lemma_take_len();
        }
        r
    }

    /// The sectors whose submode byte carries the data flag, in original
    /// order.
    pub fn get_data_sectors(&self) -> (r: Vec<&CdiSector>)
        ensures
            r@.len() == filter_data(self.sectors@).len(),
            forall|i: int|
                0 <= i < r@.len() ==> *(#[trigger] r@[i]) == filter_data(self.sectors@)[i],
    {
        let mut r: Vec<&CdiSector> = Vec::new();
        let n = self.sectors.len();
        let mut i: usize = 0;
        while i < n
            invariant
                i <= n,
                n == self.sectors@.len(),
                r@.len() == filter_data(self.sectors@.take(i as int)).len(),
                forall|j: int|
                    0 <= j < r@.len() ==> *(#[trigger] r@[j]) == filter_data(
                        self.sectors@.take(i as int),
                    )[j],
            decreases n - i,
        {
            let s = &self.sectors[i];
            proof {
                self.sectors@.lemma_take_succ_push(i as int);
                self.sectors@.take(i as int).lemma_filter_push(
                    self.sectors@[i as int],
                    |x: CdiSector| x.submode_info.spec_is_data(),
                );
            }
            if s.submode_info.is_data() {
                r.push(s);
            }
            i = i + 1;
        }
        proof {
            self.sectors@.lemma_take_len();
        }
        r
    }
}

} // verus!
