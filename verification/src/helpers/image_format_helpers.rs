//! Decoders for the CD-i video payload formats: DYUV, CLUT and RLE.

use vstd::prelude::*;
use crate::helpers::audio_helpers::lemma_nibble_bounds;
use crate::helpers::audio_helpers::spec_div256_trunc;
use crate::helpers::color_helpers::spec_transparent;
use crate::helpers::color_helpers::RgbaColor;
use vstd::arithmetic::div_mod::lemma_fundamental_div_mod;
use vstd::arithmetic::div_mod::lemma_mod_bound;

verus! {

/// A decoded width x height RGBA pixel buffer, row-major, top row first.
/// Pixels the decoder never reached keep the fully transparent default.
pub struct DecodedFrame {
    pub width: u32,
    pub height: u32,
    pub pixels: Vec<RgbaColor>,
}

impl DecodedFrame {
    /// The buffer holds exactly one pixel per coordinate.
    pub open spec fn wf(self) -> bool {
        self.pixels@.len() == (self.width as int) * (self.height as int)
    }
}

/// Clamp of a color component to the unsigned 8-bit range.
pub open spec fn spec_clamp(value: int) -> int {
    if value < 0 {
        0
    } else if value > 255 {
        255
    } else {
        value
    }
}

/// Clamps a color component to the unsigned 8-bit range.
pub fn clamp(value: i32) -> (r: i32)
    ensures
        r == spec_clamp(value as int),
{
    if value < 0 {
        0
    } else if value > 255 {
        255
    } else {
        value
    }
}

/// Division by 256 truncating toward zero, on machine integers.
fn div256(x: i32) -> (q: i32)
    ensures
        q as int == spec_div256_trunc(x as int),
{
    proof {
        let a = if x >= 0 {
            x as int
        } else {
            (x as int) * -1
        };
        lemma_fundamental_div_mod(a, 256);
        lemma_mod_bound(a, 256);
    }
    match x.checked_div(256) {
        Some(q) => q,
        None => 0,
    }
}

/// RGB conversion of one (Y, U, V) triple:
/// `R = clamp((Y * 256 + 351 * (V - 128)) / 256)`,
/// `G = clamp((Y * 256 - (86 * (U - 128) + 179 * (V - 128))) / 256)`,
/// `B = clamp((Y * 256 + 444 * (U - 128)) / 256)`, at full opacity.
#[verifier::opaque]
pub open spec fn spec_yuv_to_rgb(y: int, u: int, v: int) -> RgbaColor {
    RgbaColor {
        r: spec_clamp(spec_div256_trunc(y * 256 + 351 * (v - 128))) as u8,
        g: spec_clamp(spec_div256_trunc(y * 256 - (86 * (u - 128) + 179 * (v - 128)))) as u8,
        b: spec_clamp(spec_div256_trunc(y * 256 + 444 * (u - 128))) as u8,
        a: 255,
    }
}

/// Converts one (Y, U, V) triple of byte-range components to RGB.
fn yuv_to_rgb(y: i32, u: i32, v: i32) -> (r: RgbaColor)
    requires
        0 <= y < 256,
        0 <= u < 256,
        0 <= v < 256,
    ensures
        r == spec_yuv_to_rgb(y as int, u as int, v as int),
{
    proof {
        reveal(spec_yuv_to_rgb);
    }
    let rv = clamp(div256(y * 256 + 351 * (v - 128)));
    let gv = clamp(div256((y * 256) - (86 * (u - 128) + 179 * (v - 128))));
    let bv = clamp(div256(y * 256 + 444 * (u - 128)));
    RgbaColor { r: rv as u8, g: gv as u8, b: bv as u8, a: 255 }
}

/// The CLUT pixel at flat position `i`: the input byte indexes the color
/// table; an index beyond the table wraps by modulo; an in-range index is
/// rendered fully transparent when transparency is enabled and the index
/// is 0, or at most the threshold (`use_lower` set), or at least the
/// threshold (`use_lower` clear); positions past the end of the input
/// keep the transparent default.
pub open spec fn spec_clut_pixel(
    data: Seq<u8>,
    clut: Seq<RgbaColor>,
    use_transparency: bool,
    transparency_index: int,
    use_lower: bool,
    i: int,
) -> RgbaColor {
    if 0 <= i < data.len() {
        let ci = data[i] as int;
        if ci < clut.len() {
            if use_transparency && ((use_lower && ci <= transparency_index) || (!use_lower && ci
                >= transparency_index) || ci == 0) {
                spec_transparent()
            } else {
                clut[ci]
            }
        } else {
            clut[ci % (clut.len() as int)]
        }
    } else {
        spec_transparent()
    }
}

/// Input of a CLUT decode: one encoded byte per pixel, the color table,
/// and the transparency rule.
pub struct Clut7Config {
    pub width: u32,
    pub height: u32,
    pub encoded_data: Vec<u8>,
    pub clut_data: Vec<RgbaColor>,
    pub use_transparency: bool,
    pub transparency_index: u8,
    pub use_lower_indexes: bool,
}

/// Decodes an indexed-color image: each input byte is an index into the
/// color table, resolved by `spec_clut_pixel`'s transparency and modulo
/// wrap rules. When the input ends before the image is full, the
/// remaining pixels keep the transparent default.
pub fn decode_clut7_image(config: Clut7Config) -> (r: DecodedFrame)
    requires
        config.clut_data@.len() > 0,
        (config.width as int) * (config.height as int) <= usize::MAX,
    ensures
        r.width == config.width,
        r.height == config.height,
        r.wf(),
        forall|i: int|
            0 <= i < r.pixels@.len() ==> #[trigger] r.pixels@[i] == spec_clut_pixel(
                config.encoded_data@,
                config.clut_data@,
                config.use_transparency,
                config.transparency_index as int,
                config.use_lower_indexes,
                i,
            ),
{
    let total: usize = (config.width as usize) * (config.height as usize);
    let mut pixels: Vec<RgbaColor> = Vec::new();
    let mut i: usize = 0;
    while i < total
        invariant
            i <= total,
            config.clut_data@.len() > 0,
            pixels@.len() == i,
            forall|j: int|
                0 <= j < i ==> #[trigger] pixels@[j] == spec_clut_pixel(
                    config.encoded_data@,
                    config.clut_data@,
                    config.use_transparency,
                    config.transparency_index as int,
                    config.use_lower_indexes,
                    j,
                ),
        decreases total - i,
    {
        let px: RgbaColor = if i < config.encoded_data.len() {
            let clut_index = config.encoded_data[i] as usize;
            if clut_index < config.clut_data.len() {
                if config.use_transparency && ((config.use_lower_indexes && clut_index
                    <= config.transparency_index as usize) || (!config.use_lower_indexes
                    && clut_index >= config.transparency_index as usize) || clut_index == 0) {
                    RgbaColor { r: 0, g: 0, b: 0, a: 0 }
                } else {
                    config.clut_data[clut_index]
                }
            } else {
                config.clut_data[clut_index % config.clut_data.len()]
            }
        } else {
            RgbaColor { r: 0, g: 0, b: 0, a: 0 }
        };
        pixels.push(px);
        i = i + 1;
    }
    DecodedFrame { width: config.width, height: config.height, pixels }
}

/// The expansion of the RLE byte stream from position `i`, with `cur` the
/// partly filled current line: completed lines flush to the output as
/// they reach the line width, and whatever remains in the current line is
/// appended at the end. A control byte with the high bit set starts a run
/// of its low 7 bits; the following length byte gives the run length,
/// where 0 means fill to the end of the line and 1 consumes the pair
/// without emitting anything. A control byte with the high bit clear
/// emits its low 7 bits once.
pub open spec fn spec_rle_expand(d: Seq<u8>, w: int, i: int, cur: Seq<u8>) -> Seq<u8>
    decreases d.len() - i,
{
    if i < 0 || i >= d.len() {
        cur
    } else {
        let b = d[i];
        let ci = b & 0x7F;
        if b & 0x80 != 0 {
            if i + 1 >= d.len() {
                cur
            } else {
                let rl = d[i + 1] as int;
                if rl == 1 {
                    spec_rle_expand(d, w, i + 2, cur)
                } else {
                    let add = if rl == 0 || rl > w - cur.len() {
                        w - cur.len()
                    } else {
                        rl
                    };
                    let cur2 = cur + Seq::new(add as nat, |t: int| ci);
                    if cur2.len() == w {
                        cur2 + spec_rle_expand(d, w, i + 2, Seq::empty())
                    } else {
                        spec_rle_expand(d, w, i + 2, cur2)
                    }
                }
            }
        } else {
            let cur2 = cur.push(ci);
            if cur2.len() == w {
                cur2 + spec_rle_expand(d, w, i + 1, Seq::empty())
            } else {
                spec_rle_expand(d, w, i + 1, cur2)
            }
        }
    }
}

/// Expands a run-length-encoded byte stream into one flat buffer of
/// color indexes, `line_width` indexes per completed line.
pub fn decode_rle_bytes(rle_data: &[u8], line_width: usize) -> (r: Vec<u8>)
    requires
        line_width >= 1,
    ensures
        r@ == spec_rle_expand(rle_data@, line_width as int, 0, Seq::empty()),
{
    let ghost out = spec_rle_expand(rle_data@, line_width as int, 0, Seq::empty());
    let mut lines: Vec<u8> = Vec::new();
    let mut current_line: Vec<u8> = Vec::new();
    let len = rle_data.len();
    let mut i: usize = 0;
    while i < len
        invariant
            i <= len,
            len == rle_data@.len(),
            line_width >= 1,
            current_line@.len() < line_width,
            out == spec_rle_expand(rle_data@, line_width as int, 0, Seq::empty()),
            out == lines@ + spec_rle_expand(rle_data@, line_width as int, i as int, current_line@),
        decreases len - i,
    {
        let ghost rem = spec_rle_expand(rle_data@, line_width as int, i as int, current_line@);
        let first_byte = rle_data[i];
        let is_run = (first_byte & 0x80) != 0;
        let color_index = first_byte & 0x7F;
        if is_run {
            if i + 1 < len {
                let run_length = rle_data[i + 1] as usize;
                i = i + 2;
                if run_length != 1 {
                    let remaining = line_width - current_line.len();
                    let add_length = if run_length == 0 || run_length > remaining {
                        remaining
                    } else {
                        run_length
                    };
                    let ghost pre = current_line@;
                    let mut t: usize = 0;
                    while t < add_length
                        invariant
                            t <= add_length,
                            current_line@ == pre + Seq::new(t as nat, |s: int| color_index),
                        decreases add_length - t,
                    {
                        current_line.push(color_index);
                        proof {
                            assert(current_line@ =~= pre + Seq::new(
                                (t + 1) as nat,
                                |s: int| color_index,
                            ));
                        }
                        t = t + 1;
                    }
                    if current_line.len() == line_width {
                        let ghost full = current_line@;
                        let ghost pre_lines = lines@;
                        lines.append(&mut current_line);
                        proof {
                            let rest = spec_rle_expand(
                                rle_data@,
                                line_width as int,
                                i as int,
                                Seq::empty(),
                            );
                            assert(rem == full + rest);
                            assert((pre_lines + full) + rest =~= pre_lines + (full + rest));
                        }
                    }
                }
            } else {
                i = len;
            }
        } else {
            current_line.push(color_index);
            i = i + 1;
            if current_line.len() == line_width {
                let ghost full = current_line@;
                let ghost pre_lines = lines@;
                lines.append(&mut current_line);
                proof {
                    let rest = spec_rle_expand(
                        rle_data@,
                        line_width as int,
                        i as int,
                        Seq::empty(),
                    );
                    assert(rem == full + rest);
                    assert((pre_lines + full) + rest =~= pre_lines + (full + rest));
                }
            }
        }
    }
    lines.append(&mut current_line);
    lines
}

/// The fixed 16-entry dequantizer table a 4-bit DYUV delta is looked up
/// in.
#[verifier::opaque]
pub open spec fn spec_dequant(v: int) -> int {
    if v == 0 {
        0
    } else if v == 1 {
        1
    } else if v == 2 {
        4
    } else if v == 3 {
        9
    } else if v == 4 {
        16
    } else if v == 5 {
        27
    } else if v == 6 {
        44
    } else if v == 7 {
        79
    } else if v == 8 {
        128
    } else if v == 9 {
        177
    } else if v == 10 {
        212
    } else if v == 11 {
        229
    } else if v == 12 {
        240
    } else if v == 13 {
        247
    } else if v == 14 {
        252
    } else {
        255
    }
}

/// Looks a 4-bit DYUV delta up in the fixed dequantizer table.
fn dequant(v: u8) -> (r: u8)
    requires
        v < 16,
    ensures
        r as int == spec_dequant(v as int),
{
    proof {
        reveal(spec_dequant);
    }
    match v {
        0 => 0,
        1 => 1,
        2 => 4,
        3 => 9,
        4 => 16,
        5 => 27,
        6 => 44,
        7 => 79,
        8 => 128,
        9 => 177,
        10 => 212,
        11 => 229,
        12 => 240,
        13 => 247,
        14 => 252,
        _ => 255,
    }
}

/// One encoded byte pair applied to the running predictors `(py, pu,
/// pv)`: the pair carries the four 4-bit deltas (high nibble of the first
/// byte dU, low nibble dY1, high nibble of the second byte dV, low nibble
/// dY2) covering two pixels. The first pixel's luma adds dY1 to the
/// running Y and its rendered chroma is the integer midpoint of the
/// running chroma and the post-delta chroma; the second pixel adds dY2 on
/// top and renders the post-delta chroma directly. Returns the two pixels
/// and the new running (Y, U, V), all additions modulo 256.
#[verifier::opaque]
pub open spec fn spec_dyuv_step(b0: u8, b1: u8, py: int, pu: int, pv: int) -> (
    RgbaColor,
    RgbaColor,
    int,
    int,
    int,
) {
    let du = spec_dequant((b0 >> 4) as int);
    let dy1 = spec_dequant((b0 & 0x0F) as int);
    let dv = spec_dequant((b1 >> 4) as int);
    let dy2 = spec_dequant((b1 & 0x0F) as int);
    let y1 = (py + dy1) % 256;
    let u2 = (pu + du) % 256;
    let v2 = (pv + dv) % 256;
    let y2 = (y1 + dy2) % 256;
    let u1 = (pu + u2) / 2;
    let v1 = (pv + v2) / 2;
    (spec_yuv_to_rgb(y1, u1, v1), spec_yuv_to_rgb(y2, u2, v2), y2, u2, v2)
}

/// One scanline of a DYUV decode, from column `x` with running predictors
/// `(py, pu, pv)` and the input at `idx`: each byte pair decodes a pair
/// of pixels through `spec_dyuv_step`. When fewer than two input bytes
/// remain, the rest of the line keeps the transparent default. Returns
/// the pixels for columns `x..w` and the input position after the line.
pub open spec fn spec_dyuv_row(
    d: Seq<u8>,
    idx: int,
    w: int,
    x: int,
    py: int,
    pu: int,
    pv: int,
) -> (Seq<RgbaColor>, int)
    decreases w - x,
{
    if x < 0 || x >= w {
        (Seq::empty(), idx)
    } else if idx < 0 || idx + 1 >= d.len() {
        (Seq::new((w - x) as nat, |t: int| spec_transparent()), idx)
    } else {
        let st = spec_dyuv_step(d[idx], d[idx + 1], py, pu, pv);
        let nx = if x + 2 <= w {
            x + 2
        } else {
            w
        };
        let rest = spec_dyuv_row(d, idx + 2, w, nx, st.2, st.3, st.4);
        if x + 1 < w {
            (seq![st.0, st.1] + rest.0, rest.1)
        } else {
            (seq![st.0] + rest.0, rest.1)
        }
    }
}

/// A DYUV frame: `h` scanlines decoded in order from one running input
/// position, each line restarting the predictors from the caller's seed
/// values.
pub open spec fn spec_dyuv_frame(
    d: Seq<u8>,
    idx: int,
    w: int,
    h: int,
    iy: int,
    iu: int,
    iv: int,
) -> Seq<RgbaColor>
    decreases h,
{
    if h <= 0 {
        Seq::empty()
    } else {
        let row = spec_dyuv_row(d, idx, w, 0, iy, iu, iv);
        row.0 + spec_dyuv_frame(d, row.1, w, h - 1, iy, iu, iv)
    }
}

/// A scanline suffix holds exactly one pixel per remaining column.
#[verifier::rlimit(60)]
proof fn lemma_dyuv_row_len(d: Seq<u8>, idx: int, w: int, x: int, py: int, pu: int, pv: int)
    requires
        0 <= x <= w,
    ensures
        spec_dyuv_row(d, idx, w, x, py, pu, pv).0.len() == w - x,
    decreases w - x,
{
    if x < w && !(idx < 0 || idx + 1 >= d.len()) {
        let st = spec_dyuv_step(d[idx], d[idx + 1], py, pu, pv);
        let nx = if x + 2 <= w {
            x + 2
        } else {
            w
        };
        lemma_dyuv_row_len(d, idx + 2, w, nx, st.2, st.3, st.4);
    }
}

/// A frame holds exactly one pixel per coordinate.
proof fn lemma_dyuv_frame_len(d: Seq<u8>, idx: int, w: int, h: int, iy: int, iu: int, iv: int)
    requires
        w >= 0,
        h >= 0,
    ensures
        spec_dyuv_frame(d, idx, w, h, iy, iu, iv).len() == w * h,
    decreases h,
{
    if h > 0 {
        let row = spec_dyuv_row(d, idx, w, 0, iy, iu, iv);
        lemma_dyuv_row_len(d, idx, w, 0, iy, iu, iv);
        lemma_dyuv_frame_len(d, row.1, w, h - 1, iy, iu, iv);
        assert(spec_dyuv_frame(d, idx, w, h, iy, iu, iv) == row.0 + spec_dyuv_frame(
            d,
            row.1,
            w,
            h - 1,
            iy,
            iu,
            iv,
        ));
        assert(row.0.len() == w);
        assert(spec_dyuv_frame(d, row.1, w, h - 1, iy, iu, iv).len() == w * (h - 1));
        assert(w + w * (h - 1) == w * h) by (nonlinear_arith);
    } else {
        assert(spec_dyuv_frame(d, idx, w, h, iy, iu, iv) =~= Seq::<RgbaColor>::empty());
        assert(w * h == 0) by (nonlinear_arith)
            requires
                h == 0,
        ;
    }
}

/// Input of a DYUV decode: the encoded byte stream and the (Y, U, V)
/// seed values every scanline restarts its predictors from.
pub struct DyuvImageConfig {
    pub width: u32,
    pub height: u32,
    pub encoded_data: Vec<u8>,
    pub initial_y: u32,
    pub initial_u: u32,
    pub initial_v: u32,
}

/// Decodes a delta-YUV image: scanlines are decoded in order from one
/// running input position, each restarting its predictors from the seed
/// values; decoding a line stops early, leaving its remaining pixels and
/// all later lines at the transparent default, when fewer than two input
/// bytes remain.
#[verifier::rlimit(100)]
pub fn decode_dyuv_image(config: DyuvImageConfig) -> (r: DecodedFrame)
    requires
        config.initial_y <= 255,
        config.initial_u <= 255,
        config.initial_v <= 255,
        (config.width as int) * (config.height as int) <= usize::MAX,
    ensures
        r.width == config.width,
        r.height == config.height,
        r.wf(),
        r.pixels@ == spec_dyuv_frame(
            config.encoded_data@,
            0,
            config.width as int,
            config.height as int,
            config.initial_y as int,
            config.initial_u as int,
            config.initial_v as int,
        ),
{
    let w = config.width;
    let h = config.height;
    let ghost dd = config.encoded_data@;
    let ghost iy = config.initial_y as int;
    let ghost iu = config.initial_u as int;
    let ghost iv = config.initial_v as int;
    let ghost frame = spec_dyuv_frame(dd, 0, w as int, h as int, iy, iu, iv);

    let mut pixels: Vec<RgbaColor> = Vec::new();
    let mut enc: usize = 0;
    let mut y: u32 = 0;
    while y < h
        invariant
            y <= h,
            dd == config.encoded_data@,
            enc <= dd.len(),
            config.initial_y <= 255,
            config.initial_u <= 255,
            config.initial_v <= 255,
            iy == config.initial_y as int,
            iu == config.initial_u as int,
            iv == config.initial_v as int,
            frame == spec_dyuv_frame(dd, 0, w as int, h as int, iy, iu, iv),
            frame == pixels@ + spec_dyuv_frame(dd, enc as int, w as int, (h - y) as int, iy, iu, iv),
        decreases h - y,
    {
        let ghost row = spec_dyuv_row(dd, enc as int, w as int, 0, iy, iu, iv);
        let ghost frame_rest = spec_dyuv_frame(dd, row.1, w as int, (h - y - 1) as int, iy, iu, iv);
        let ghost prefix = pixels@;
        let ghost row_base = pixels@.len() as int;
        proof {
            assert(spec_dyuv_frame(dd, enc as int, w as int, (h - y) as int, iy, iu, iv) == row.0
                + frame_rest);
            assert(frame =~= prefix + row.0 + frame_rest);
        }

        let mut prev_y: u16 = config.initial_y as u16;
        let mut prev_u: u16 = config.initial_u as u16;
        let mut prev_v: u16 = config.initial_v as u16;
        let mut x: u32 = 0;
        while x < w
            invariant
                x <= w,
                dd == config.encoded_data@,
                enc <= dd.len(),
                prev_y <= 255,
                prev_u <= 255,
                prev_v <= 255,
                pixels@.len() == row_base + x,
                0 <= row_base <= pixels@.len(),
                prefix == pixels@.subrange(0, row_base),
                row.0 == pixels@.skip(row_base) + spec_dyuv_row(
                    dd,
                    enc as int,
                    w as int,
                    x as int,
                    prev_y as int,
                    prev_u as int,
                    prev_v as int,
                ).0,
                row.1 == spec_dyuv_row(
                    dd,
                    enc as int,
                    w as int,
                    x as int,
                    prev_y as int,
                    prev_u as int,
                    prev_v as int,
                ).1,
            decreases w - x,
        {
            let ghost rem = spec_dyuv_row(
                dd,
                enc as int,
                w as int,
                x as int,
                prev_y as int,
                prev_u as int,
                prev_v as int,
            );
            let ghost pre = pixels@;
            let available = config.encoded_data.len() - enc;
            if available >= 2 {
                let b0 = config.encoded_data[enc];
                let b1 = config.encoded_data[enc + 1];
                proof {
                    lemma_nibble_bounds(b0);
                    lemma_nibble_bounds(b1);
                }
                let du = dequant(b0 >> 4);
                let dy1 = dequant(b0 & 0x0F);
                let dv = dequant(b1 >> 4);
                let dy2 = dequant(b1 & 0x0F);
                let yout1: u16 = (prev_y + dy1 as u16) % 256;
                let uout2: u16 = (prev_u + du as u16) % 256;
                let vout2: u16 = (prev_v + dv as u16) % 256;
                let yout2: u16 = (yout1 + dy2 as u16) % 256;
                let uout1: u16 = (prev_u + uout2) / 2;
                let vout1: u16 = (prev_v + vout2) / 2;
                let rgb1 = yuv_to_rgb(yout1 as i32, uout1 as i32, vout1 as i32);
                let rgb2 = yuv_to_rgb(yout2 as i32, uout2 as i32, vout2 as i32);
                proof {
                    reveal(spec_dyuv_step);
                    let st = spec_dyuv_step(
                        dd[enc as int],
                        dd[enc as int + 1],
                        prev_y as int,
                        prev_u as int,
                        prev_v as int,
                    );
                    assert(st.0 == rgb1);
                    assert(st.1 == rgb2);
                    assert(st.2 == yout2 as int);
                    assert(st.3 == uout2 as int);
                    assert(st.4 == vout2 as int);
                }
                let ghost nx = if x + 2 <= w {
                    x + 2
                } else {
                    w as int
                };
                let ghost rest = spec_dyuv_row(
                    dd,
                    enc + 2,
                    w as int,
                    nx,
                    yout2 as int,
                    uout2 as int,
                    vout2 as int,
                );
                pixels.push(rgb1);
                if x + 1 < w {
                    pixels.push(rgb2);
                    proof {
                        assert(rem.0 == seq![rgb1, rgb2] + rest.0);
                        assert(pixels@.skip(row_base) =~= pre.skip(row_base) + seq![rgb1, rgb2]);
                        assert((pre.skip(row_base) + seq![rgb1, rgb2]) + rest.0 =~= pre.skip(
                            row_base,
                        ) + (seq![rgb1, rgb2] + rest.0));
                        assert(pixels@.subrange(0, row_base) =~= pre.subrange(0, row_base));
                    }
                    prev_y = yout2;
                    prev_u = uout2;
                    prev_v = vout2;
                    enc = enc + 2;
                    x = x + 2;
                } else {
                    proof {
                        assert(rem.0 == seq![rgb1] + rest.0);
                        assert(rest.0 =~= Seq::<RgbaColor>::empty());
                        assert(pixels@.skip(row_base) =~= pre.skip(row_base) + seq![rgb1]);
                        assert((pre.skip(row_base) + seq![rgb1]) + rest.0 =~= pre.skip(row_base)
                            + (seq![rgb1] + rest.0));
                        assert(pixels@.subrange(0, row_base) =~= pre.subrange(0, row_base));
                    }
                    prev_y = yout2;
                    prev_u = uout2;
                    prev_v = vout2;
                    enc = enc + 2;
                    x = w;
                }
            } else {
                pixels.push(RgbaColor { r: 0, g: 0, b: 0, a: 0 });
                proof {
                    assert(rem.0 == Seq::new((w - x) as nat, |t: int| spec_transparent()));
                    let rest = spec_dyuv_row(
                        dd,
                        enc as int,
                        w as int,
                        x + 1,
                        prev_y as int,
                        prev_u as int,
                        prev_v as int,
                    );
                    assert(rem.0 =~= seq![spec_transparent()] + rest.0);
                    assert(pixels@.skip(row_base) =~= pre.skip(row_base) + seq![
                        spec_transparent(),
                    ]);
                    assert((pre.skip(row_base) + seq![spec_transparent()]) + rest.0 =~= pre.skip(
                        row_base,
                    ) + (seq![spec_transparent()] + rest.0));
                    assert(pixels@.subrange(0, row_base) =~= pre.subrange(0, row_base));
                }
                x = x + 1;
            }
        }
        proof {
            assert(spec_dyuv_row(
                dd,
                enc as int,
                w as int,
                x as int,
                prev_y as int,
                prev_u as int,
                prev_v as int,
            ).0 =~= Seq::<RgbaColor>::empty());
            assert(row.0 =~= pixels@.skip(row_base));
            assert(pixels@ =~= prefix + row.0);
            assert(frame =~= pixels@ + frame_rest);
        }
        y = y + 1;
    }
    proof {
        assert(spec_dyuv_frame(dd, enc as int, w as int, 0, iy, iu, iv)
            =~= Seq::<RgbaColor>::empty());
        assert(pixels@ =~= frame);
        lemma_dyuv_frame_len(dd, 0, w as int, h as int, iy, iu, iv);
    }
    DecodedFrame { width: w, height: h, pixels }
}

/// Input of an RLE decode: the encoded stream, the line width in pixels,
/// the image height, the color table, and the transparency switch.
pub struct RleImageConfig {
    pub encoded_data: Vec<u8>,
    pub line_width: usize,
    pub height: usize,
    pub clut_data: Vec<RgbaColor>,
    pub use_transparency: bool,
}

/// Decodes a run-length-encoded image: expands the byte stream into flat
/// color indexes line by line, then resolves each index through the color
/// table, with transparency threshold 0 applied from above when enabled.
pub fn decode_rle_image(config: RleImageConfig) -> (r: DecodedFrame)
    requires
        config.clut_data@.len() > 0,
        config.line_width >= 1,
        config.line_width <= u32::MAX,
        config.height <= u32::MAX,
        (config.line_width as int) * (config.height as int) <= usize::MAX,
    ensures
        r.width == config.line_width,
        r.height == config.height,
        r.wf(),
        forall|i: int|
            0 <= i < r.pixels@.len() ==> #[trigger] r.pixels@[i] == spec_clut_pixel(
                spec_rle_expand(config.encoded_data@, config.line_width as int, 0, Seq::empty()),
                config.clut_data@,
                config.use_transparency,
                0,
                false,
                i,
            ),
{
    let image_bytes = decode_rle_bytes(&config.encoded_data, config.line_width);
    let clut_config = Clut7Config {
        width: config.line_width as u32,
        height: config.height as u32,
        encoded_data: image_bytes,
        clut_data: config.clut_data,
        use_transparency: config.use_transparency,
        transparency_index: 0,
        use_lower_indexes: false,
    };
    decode_clut7_image(clut_config)
}

} // verus!
