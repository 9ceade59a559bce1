//! Parsers for the color-table layouts found in CD-i data sectors.

use vstd::prelude::*;

verus! {

/// One RGBA color of a palette or of a decoded frame.
#[derive(Clone, Copy, Debug, PartialEq, Eq, Structural)]
pub struct RgbaColor {
    pub r: u8,
    pub g: u8,
    pub b: u8,
    pub a: u8,
}

/// The fully transparent black pixel, also the value undecoded pixels of
/// a frame keep.
pub open spec fn spec_transparent() -> RgbaColor {
    RgbaColor { r: 0, g: 0, b: 0, a: 0 }
}

/// The color of the unindexed 3-byte record starting at `off`: red,
/// green, blue, at full opacity.
pub open spec fn spec_rgb_record(d: Seq<u8>, off: int) -> RgbaColor {
    RgbaColor { r: d[off], g: d[off + 1], b: d[off + 2], a: 255 }
}

/// The color of the indexed 4-byte record starting at `off`: one index
/// byte ignored, then red, green, blue, at full opacity.
pub open spec fn spec_indexed_record(d: Seq<u8>, off: int) -> RgbaColor {
    RgbaColor { r: d[off + 1], g: d[off + 2], b: d[off + 3], a: 255 }
}

/// Reads unindexed palette bytes: consecutive 3-byte RGB records, alpha
/// forced opaque. Exactly the complete records are read; trailing bytes
/// that cannot form a full record are dropped.
pub fn read_unindexed_palette(data: &[u8]) -> (r: Vec<RgbaColor>)
    ensures
        r@.len() == data@.len() / 3,
        forall|j: int|
            0 <= j < r@.len() ==> #[trigger] r@[j] == spec_rgb_record(data@, 3 * j),
{
    let mut colors: Vec<RgbaColor> = Vec::new();
    let length = data.len();
    let mut i: usize = 0;
    while i < length && length - i >= 3
        invariant
            length == data@.len(),
            i % 3 == 0,
            i <= length,
            colors@.len() == i / 3,
            forall|j: int|
                0 <= j < colors@.len() ==> #[trigger] colors@[j] == spec_rgb_record(data@, 3 * j),
        decreases length - i,
    {
        let color = RgbaColor { r: data[i], g: data[i + 1], b: data[i + 2], a: 255 };
        colors.push(color);
        i = i + 3;
    }
    colors
}

/// Reads indexed palette bytes: consecutive 4-byte records of one index
/// byte (ignored for ordering) and RGB, alpha forced opaque. Exactly the
/// complete records are read; trailing bytes are dropped.
pub fn read_indexed_palette(data: &[u8]) -> (r: Vec<RgbaColor>)
    ensures
        r@.len() == data@.len() / 4,
        forall|j: int|
            0 <= j < r@.len() ==> #[trigger] r@[j] == spec_indexed_record(data@, 4 * j),
{
    let mut colors: Vec<RgbaColor> = Vec::new();
    let length = data.len();
    let mut i: usize = 0;
    while i < length && length - i >= 4
        invariant
            length == data@.len(),
            i % 4 == 0,
            i <= length,
            colors@.len() == i / 4,
            forall|j: int|
                0 <= j < colors@.len() ==> #[trigger] colors@[j] == spec_indexed_record(
                    data@,
                    4 * j,
                ),
        decreases length - i,
    {
        let color = RgbaColor { r: data[i + 1], g: data[i + 2], b: data[i + 3], a: 255 };
        colors.push(color);
        i = i + 4;
    }
    colors
}

/// Number of complete 4-byte records that fit in bank `b` of `d`: the
/// bank is the fixed 256-byte region starting at `256 * b`, its records
/// start 4 bytes in (past the bank header), and a record past the end of
/// the data is never read.
pub open spec fn spec_bank_records(d: Seq<u8>, b: int) -> int {
    if d.len() >= 256 * b + 8 {
        let fit = (d.len() - (256 * b + 4)) / 4;
        if fit > 63 {
            63
        } else {
            fit
        }
    } else {
        0
    }
}

/// The colors of bank `b` of `d`, in record order.
pub open spec fn spec_bank_colors(d: Seq<u8>, b: int) -> Seq<RgbaColor> {
    Seq::new(
        spec_bank_records(d, b) as nat,
        |k: int| spec_indexed_record(d, 256 * b + 4 + 4 * k),
    )
}

/// The colors of the first `count` banks of `d`, banks concatenated in
/// order.
pub open spec fn spec_clut_banks(d: Seq<u8>, count: int) -> Seq<RgbaColor>
    decreases count,
{
    if count <= 0 {
        Seq::empty()
    } else {
        spec_clut_banks(d, count - 1) + spec_bank_colors(d, count - 1)
    }
}

/// Reads a banked CLUT palette: `count` banks, each a fixed 256-byte
/// region; within a bank, 4-byte records of one ignored byte and RGB
/// start 4 bytes into the bank (skipping the bank header), alpha forced
/// opaque. Banks are concatenated in table order, and a trailing record
/// that runs past the end of the data is dropped, never padded.
pub fn read_clut_banks(data: &[u8], count: u8) -> (r: Vec<RgbaColor>)
    ensures
        r@ == spec_clut_banks(data@, count as int),
{
    let mut clut_bank_colors: Vec<RgbaColor> = Vec::new();
    let length = data.len();
    let mut b: usize = 0;
    while b < count as usize
        invariant
            b <= count as usize,
            length == data@.len(),
            clut_bank_colors@ == spec_clut_banks(data@, b as int),
        decreases count as usize - b,
    {
        let base: usize = 256 * b + 4;
        let mut k: usize = 0;
        while k < 63 && base + 4 * k + 4 <= length
            invariant
                k <= 63,
                b < 256,
                base == 256 * b + 4,
                length == data@.len(),
                k <= spec_bank_records(data@, b as int),
                clut_bank_colors@ == spec_clut_banks(data@, b as int) + spec_bank_colors(
                    data@,
                    b as int,
                ).take(k as int),
            decreases 63 - k,
        {
            let off = base + 4 * k;
            let color = RgbaColor { r: data[off + 1], g: data[off + 2], b: data[off + 3], a: 255 };
            clut_bank_colors.push(color);
            proof {
                assert(spec_bank_colors(data@, b as int).take(k + 1) =~= spec_bank_colors(
                    data@,
                    b as int,
                ).take(k as int).push(spec_indexed_record(data@, 256 * (b as int) + 4 + 4 * (k as int))));
            }
            k = k + 1;
        }
        proof {
            assert(k == spec_bank_records(data@, b as int));
            assert(spec_bank_colors(data@, b as int).take(k as int) =~= spec_bank_colors(
                data@,
                b as int,
            ));
            assert(spec_clut_banks(data@, b + 1) == spec_clut_banks(data@, b as int)
                + spec_bank_colors(data@, b as int));
        }
        b = b + 1;
    }
    clut_bank_colors
}

} // verus!
