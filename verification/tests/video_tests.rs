use cdi_media::data::cdi_file::CdiFile;
use cdi_media::helpers::color_helpers::read_clut_banks;
use cdi_media::helpers::color_helpers::read_indexed_palette;
use cdi_media::helpers::color_helpers::read_unindexed_palette;
use cdi_media::helpers::color_helpers::RgbaColor;
use cdi_media::helpers::image_format_helpers::clamp;
use cdi_media::helpers::image_format_helpers::decode_clut7_image;
use cdi_media::helpers::image_format_helpers::decode_dyuv_image;
use cdi_media::helpers::image_format_helpers::decode_rle_bytes;
use cdi_media::helpers::image_format_helpers::decode_rle_image;
use cdi_media::helpers::image_format_helpers::Clut7Config;
use cdi_media::helpers::image_format_helpers::DyuvImageConfig;
use cdi_media::helpers::image_format_helpers::RleImageConfig;

const SECTOR_SIZE: usize = 2352;

const TRANSPARENT: RgbaColor = RgbaColor { r: 0, g: 0, b: 0, a: 0 };

/// Builds a disc image from the given (channel, submode, coding-info)
/// subheader byte triples.
fn raw_image(sectors: &[(u8, u8, u8)]) -> Vec<u8> {
    let mut data = vec![0u8; sectors.len() * SECTOR_SIZE];
    for (i, (channel, submode, coding)) in sectors.iter().enumerate() {
        let base = i * SECTOR_SIZE;
        data[base + 17] = *channel;
        data[base + 18] = *submode;
        data[base + 19] = *coding;
    }
    data
}

fn gray(level: u8) -> RgbaColor {
    RgbaColor { r: level, g: level, b: level, a: 255 }
}

#[test]
fn test_clamp() {
    assert_eq!(clamp(-1), 0);
    assert_eq!(clamp(0), 0);
    assert_eq!(clamp(128), 128);
    assert_eq!(clamp(255), 255);
    assert_eq!(clamp(256), 255);
}

#[test]
fn test_unindexed_palette_complete_records_only() {
    // 7 bytes hold floor(7 / 3) = 2 complete RGB records
    let data = [10u8, 20, 30, 40, 50, 60, 70];
    let palette = read_unindexed_palette(&data);
    assert_eq!(palette.len(), 2);
    assert_eq!(palette[0], RgbaColor { r: 10, g: 20, b: 30, a: 255 });
    assert_eq!(palette[1], RgbaColor { r: 40, g: 50, b: 60, a: 255 });
    assert_eq!(read_unindexed_palette(&[]).len(), 0);
    assert_eq!(read_unindexed_palette(&[1, 2]).len(), 0);
}

#[test]
fn test_indexed_palette_ignores_index_byte() {
    // 9 bytes hold floor(9 / 4) = 2 complete records of index + RGB
    let data = [99u8, 10, 20, 30, 7, 40, 50, 60, 80];
    let palette = read_indexed_palette(&data);
    assert_eq!(palette.len(), 2);
    assert_eq!(palette[0], RgbaColor { r: 10, g: 20, b: 30, a: 255 });
    assert_eq!(palette[1], RgbaColor { r: 40, g: 50, b: 60, a: 255 });
}

#[test]
fn test_clut_banks() {
    // a full 256-byte bank holds 63 records after its 4-byte header
    let data = vec![0u8; 512];
    assert_eq!(read_clut_banks(&data, 1).len(), 63);
    assert_eq!(read_clut_banks(&data, 2).len(), 126);
    // a bank cut short by the end of the data keeps only complete records
    let mut short = vec![0u8; 300];
    short[261] = 11;
    short[262] = 22;
    short[263] = 33;
    let palette = read_clut_banks(&short, 2);
    // bank 0 is full (63 records); bank 1 has (300 - 260) / 4 = 10
    assert_eq!(palette.len(), 73);
    assert_eq!(palette[63], RgbaColor { r: 11, g: 22, b: 33, a: 255 });
    // banks wholly past the end of the data add nothing
    assert_eq!(read_clut_banks(&short, 5).len(), 73);
}

#[test]
fn test_clut_transparency_lower_indexes() {
    // with use_lower_indexes and threshold 2, indexes 0, 1, 2 render
    // transparent and 3 and up render opaque from the table
    let clut = vec![gray(1), gray(2), gray(3), gray(4)];
    let frame = decode_clut7_image(Clut7Config {
        width: 4,
        height: 1,
        encoded_data: vec![0, 1, 2, 3],
        clut_data: clut,
        use_transparency: true,
        transparency_index: 2,
        use_lower_indexes: true,
    });
    assert_eq!(frame.pixels[0], TRANSPARENT);
    assert_eq!(frame.pixels[1], TRANSPARENT);
    assert_eq!(frame.pixels[2], TRANSPARENT);
    assert_eq!(frame.pixels[3], gray(4));
}

#[test]
fn test_clut_transparency_upper_indexes() {
    // without use_lower_indexes the threshold cuts from above, and
    // index 0 is always transparent
    let clut = vec![gray(1), gray(2), gray(3), gray(4)];
    let frame = decode_clut7_image(Clut7Config {
        width: 4,
        height: 1,
        encoded_data: vec![0, 1, 2, 3],
        clut_data: clut,
        use_transparency: true,
        transparency_index: 2,
        use_lower_indexes: false,
    });
    assert_eq!(frame.pixels[0], TRANSPARENT);
    assert_eq!(frame.pixels[1], gray(2));
    assert_eq!(frame.pixels[2], TRANSPARENT);
    assert_eq!(frame.pixels[3], TRANSPARENT);
}

#[test]
fn test_clut_index_wraps_modulo() {
    let clut = vec![gray(1), gray(2)];
    let frame = decode_clut7_image(Clut7Config {
        width: 3,
        height: 1,
        encoded_data: vec![4, 5, 1],
        clut_data: clut,
        use_transparency: true,
        transparency_index: 0,
        use_lower_indexes: false,
    });
    // out-of-range indexes wrap and skip the transparency rule
    assert_eq!(frame.pixels[0], gray(1));
    assert_eq!(frame.pixels[1], gray(2));
    // an in-range index still obeys it (threshold 0 cuts from above)
    assert_eq!(frame.pixels[2], TRANSPARENT);
}

#[test]
fn test_clut_short_input_leaves_default() {
    let clut = vec![gray(9)];
    let frame = decode_clut7_image(Clut7Config {
        width: 2,
        height: 2,
        encoded_data: vec![0, 0, 0],
        clut_data: clut,
        use_transparency: false,
        transparency_index: 0,
        use_lower_indexes: false,
    });
    assert_eq!(frame.pixels.len(), 4);
    assert_eq!(frame.pixels[2], gray(9));
    assert_eq!(frame.pixels[3], TRANSPARENT);
}

#[test]
fn test_rle_run_fills_line() {
    // control byte 0x85: run of index 5; length 0 fills the line
    let out = decode_rle_bytes(&[0x85, 0x00], 10);
    assert_eq!(out, vec![5u8; 10]);
    // an explicit run length emits that many indexes
    assert_eq!(decode_rle_bytes(&[0x85, 0x03], 10), vec![5u8, 5, 5]);
}

#[test]
fn test_rle_run_length_one_emits_nothing() {
    // length byte 1 advances the input without emitting
    assert_eq!(decode_rle_bytes(&[0x85, 0x01], 10).len(), 0);
    assert_eq!(decode_rle_bytes(&[0x85, 0x01, 0x07], 10), vec![7u8]);
}

#[test]
fn test_rle_single_pixels_and_lines() {
    // single pixels fill lines that flush at the line width
    let out = decode_rle_bytes(&[0x01, 0x02, 0x03, 0x04], 2);
    assert_eq!(out, vec![1u8, 2, 3, 4]);
    // a run is cut at the end of the current line
    let out = decode_rle_bytes(&[0x01, 0x82, 0x05], 3);
    assert_eq!(out, vec![1u8, 2, 2]);
    // a trailing control byte with no length byte ends the stream
    let out = decode_rle_bytes(&[0x01, 0x82], 3);
    assert_eq!(out, vec![1u8]);
}

#[test]
fn test_dyuv_all_zero_deltas() {
    // seed Y=16, U=128, V=128 and unit bytes [0x00, 0x00]: both pixels
    // are the RGB conversion of (16, 128, 128)
    let frame = decode_dyuv_image(DyuvImageConfig {
        width: 2,
        height: 1,
        encoded_data: vec![0x00, 0x00],
        initial_y: 16,
        initial_u: 128,
        initial_v: 128,
    });
    assert_eq!(frame.pixels.len(), 2);
    assert_eq!(frame.pixels[0], gray(16));
    assert_eq!(frame.pixels[1], gray(16));
}

#[test]
fn test_dyuv_luma_deltas_accumulate() {
    // byte pair 0x01, 0x01: dY1 = 1 and dY2 = 1 look up dequantizer
    // entry 1, so Y runs 16 -> 17 -> 18 with chroma unchanged
    let frame = decode_dyuv_image(DyuvImageConfig {
        width: 2,
        height: 1,
        encoded_data: vec![0x01, 0x01],
        initial_y: 16,
        initial_u: 128,
        initial_v: 128,
    });
    assert_eq!(frame.pixels[0], gray(17));
    assert_eq!(frame.pixels[1], gray(18));
}

#[test]
fn test_dyuv_rows_restart_predictors() {
    // two one-pair rows decode the same bytes to the same pixels
    let frame = decode_dyuv_image(DyuvImageConfig {
        width: 2,
        height: 2,
        encoded_data: vec![0x01, 0x01, 0x01, 0x01],
        initial_y: 16,
        initial_u: 128,
        initial_v: 128,
    });
    assert_eq!(frame.pixels[0], frame.pixels[2]);
    assert_eq!(frame.pixels[1], frame.pixels[3]);
    assert_eq!(frame.pixels[0], gray(17));
}

#[test]
fn test_dyuv_short_input_leaves_default() {
    let frame = decode_dyuv_image(DyuvImageConfig {
        width: 4,
        height: 1,
        encoded_data: vec![0x00, 0x00],
        initial_y: 16,
        initial_u: 128,
        initial_v: 128,
    });
    assert_eq!(frame.pixels.len(), 4);
    assert_eq!(frame.pixels[0], gray(16));
    assert_eq!(frame.pixels[1], gray(16));
    assert_eq!(frame.pixels[2], TRANSPARENT);
    assert_eq!(frame.pixels[3], TRANSPARENT);
}

#[test]
fn test_dyuv_image() {
    // 45 data sectors of channel 7, flattened and decoded as one
    // 384 x 240 DYUV image seeded with Y=16, U=128, V=128
    let mut sectors = Vec::new();
    for _ in 0..45 {
        sectors.push((7u8, 0x08u8, 0u8));
    }
    let file = CdiFile::new("argos.rtf".to_string(), raw_image(&sectors));

    let data_sectors = file.get_data_sectors();
    let channel_7_data: Vec<Vec<u8>> = data_sectors
        .iter()
        .filter(|s| s.channel_number() == 7)
        .take(45)
        .map(|s| s.get_sector_data_by_type())
        .collect();
    let flattened_data: Vec<u8> = channel_7_data.into_iter().flatten().collect();

    let dyuv_image = DyuvImageConfig {
        width: 384,
        height: 240,
        encoded_data: flattened_data,
        initial_y: 16,
        initial_u: 128,
        initial_v: 128,
    };
    let image = decode_dyuv_image(dyuv_image);
    assert_ne!(image.pixels.len(), 0);
}

#[test]
fn test_clut7_image() {
    // 18 data sectors (so sector 17 carries the palette) and 47 CLUT7
    // video sectors for a 384 x 280 image
    let mut sectors = Vec::new();
    for _ in 0..18 {
        sectors.push((0u8, 0x08u8, 0u8));
    }
    for _ in 0..47 {
        sectors.push((0u8, 0x02u8, 0x01u8));
    }
    let file = CdiFile::new("L1_av.rtf".to_string(), raw_image(&sectors));

    let video_sectors = file.get_video_sectors();

    let palette_sector = file
        .get_data_sectors()
        .iter()
        .find(|s| s.sector_index() == 17)
        .unwrap()
        .get_sector_data_by_type();
    let palette_data: Vec<u8> = palette_sector.iter().take(384).cloned().collect();

    let unindexed_palette = read_unindexed_palette(&palette_data);
    assert_eq!(unindexed_palette.len(), 128);

    let clut_data: Vec<u8> = video_sectors
        .iter()
        .filter(|s| s.coding_info().video_string() == "CLUT7")
        .take(47)
        .flat_map(|s| s.get_sector_data_by_type())
        .collect();

    let clut_image = Clut7Config {
        width: 384,
        height: 280,
        encoded_data: clut_data,
        clut_data: unindexed_palette,
        use_transparency: false,
        transparency_index: 0,
        use_lower_indexes: true,
    };

    let image = decode_clut7_image(clut_image);
    assert_ne!(image.pixels.len(), 0);
}

#[test]
fn test_rle_image() {
    // 10 data sectors (so sector 9 carries the palette) and 7 RL7 video
    // sectors for a 384 x 280 image
    let mut sectors = Vec::new();
    for _ in 0..10 {
        sectors.push((0u8, 0x08u8, 0u8));
    }
    for _ in 0..7 {
        sectors.push((0u8, 0x02u8, 0x04u8));
    }
    let file = CdiFile::new("L1_av.rtf".to_string(), raw_image(&sectors));

    let video_sectors = file.get_video_sectors();

    let palette_sector = file
        .get_data_sectors()
        .iter()
        .find(|s| s.sector_index() == 9)
        .unwrap()
        .get_sector_data_by_type();
    let palette_data: Vec<u8> = palette_sector.iter().take(384).cloned().collect();

    let unindexed_palette = read_unindexed_palette(&palette_data);
    assert_eq!(unindexed_palette.len(), 128);

    let rle_data: Vec<u8> = video_sectors
        .iter()
        .filter(|s| s.coding_info().video_string() == "RL7")
        .take(7)
        .flat_map(|s| s.get_sector_data_by_type())
        .collect();

    let rle_image = RleImageConfig {
        encoded_data: rle_data,
        line_width: 384,
        clut_data: unindexed_palette,
        use_transparency: false,
        height: 280,
    };

    let image = decode_rle_image(rle_image);
    assert_ne!(image.pixels.len(), 0);
}

#[test]
fn test_gif_output() {
    // RL7 video sectors grouped by the trigger flag into frames, with
    // palettes taken from data sectors 269 and 1280
    let mut sectors = Vec::new();
    for i in 0..1281 {
        // every fourth video sector carries the trigger flag
        let submode = if i % 4 == 3 { 0x12u8 } else { 0x02u8 };
        if i == 269 || i == 1280 {
            sectors.push((0u8, 0x08u8, 0u8));
        } else {
            sectors.push((0u8, submode, 0x04u8));
        }
    }
    let file = CdiFile::new("Intro.rtr".to_string(), raw_image(&sectors));

    let video_sectors = file.get_video_sectors();

    let palette_sector_1 = file
        .get_data_sectors()
        .iter()
        .find(|s| s.sector_index() == 269)
        .unwrap()
        .get_sector_data_by_type();
    let palette_sector_2 = file
        .get_data_sectors()
        .iter()
        .find(|s| s.sector_index() == 1280)
        .unwrap()
        .get_sector_data_by_type();
    let palette_data_1: Vec<u8> = palette_sector_1.iter().skip(4).take(384).cloned().collect();
    let palette_data_2: Vec<u8> = palette_sector_2.iter().skip(4).take(384).cloned().collect();

    let unindexed_palette_1 = read_unindexed_palette(&palette_data_1);
    let unindexed_palette_2 = read_unindexed_palette(&palette_data_2);
    assert_eq!(unindexed_palette_1.len(), 128);
    assert_eq!(unindexed_palette_2.len(), 128);

    let rle_image_sectors: Vec<_> = video_sectors
        .iter()
        .filter(|s| s.coding_info().video_string() == "RL7")
        .collect();

    let mut frames = Vec::new();
    let mut byte_groups: Vec<Vec<u8>> = Vec::new();

    for sector in rle_image_sectors.iter() {
        byte_groups.push(sector.get_sector_data_by_type());

        if sector.submode().is_trigger() {
            let palette = if sector.sector_index() >= 1280 {
                &unindexed_palette_2
            } else {
                &unindexed_palette_1
            };
            let data: Vec<u8> = byte_groups.iter().flatten().cloned().collect();
            let rle_image = RleImageConfig {
                encoded_data: data,
                line_width: 384,
                clut_data: palette.to_vec(),
                use_transparency: false,
                height: 240,
            };
            frames.push(decode_rle_image(rle_image));
            byte_groups.clear();
        }
    }

    assert_ne!(frames.len(), 0);
    for frame in frames.iter() {
        assert_eq!(frame.pixels.len(), 384 * 240);
    }
}
