use data_to_png::Rgb;
use data_to_png::errors::DecodeError;
use data_to_png::errors::HeaderField;
use data_to_png::format::Format;
use data_to_png::header::parse_header;
use data_to_png::pixel::decode_pixel;
use data_to_png::raster::decode;

/// Lays out a capture: four 8-byte little-endian header fields, then the payload.
fn capture(width: u64, height: u64, bpp: u64, tag: u64, payload: &[u8]) -> Vec<u8> {
    let mut out: Vec<u8> = Vec::new();
    out.extend_from_slice(&width.to_le_bytes());
    out.extend_from_slice(&height.to_le_bytes());
    out.extend_from_slice(&bpp.to_le_bytes());
    out.extend_from_slice(&tag.to_le_bytes());
    out.extend_from_slice(payload);
    out
}

fn depth_pixel(depth: f32) -> [u8; 4] {
    depth.to_le_bytes()
}

#[test]
fn zero_width_decodes_to_empty_raster() {
    let data = capture(0, 5, 4, 2, &[1, 2, 3, 4, 5, 6, 7]);
    let raster = decode(&data).unwrap();
    assert_eq!(raster.width, 0);
    assert_eq!(raster.height, 5);
    assert_eq!(raster.pixels.len(), 0);
}

#[test]
fn zero_height_decodes_to_empty_raster() {
    let data = capture(7, 0, 3, 4, &[]);
    let raster = decode(&data).unwrap();
    assert_eq!(raster.width, 7);
    assert_eq!(raster.height, 0);
    assert_eq!(raster.pixels.len(), 0);
}

#[test]
fn rgbx_round_trip_reproduces_payload_bytes() {
    // 2x2 grid, 4 bytes per pixel, RGB-padded: byte 3 of each cell is padding
    let payload: [u8; 16] = [
        10, 20, 30, 99, 40, 50, 60, 99, 70, 80, 90, 99, 11, 22, 33, 99,
    ];
    let data = capture(2, 2, 4, 4, &payload);
    let raster = decode(&data).unwrap();
    assert_eq!(raster.pixels.len(), 4);
    assert_eq!(raster.pixels[0], Rgb { r: 10, g: 20, b: 30 });
    assert_eq!(raster.pixels[1], Rgb { r: 40, g: 50, b: 60 });
    assert_eq!(raster.pixels[2], Rgb { r: 70, g: 80, b: 90 });
    assert_eq!(raster.pixels[3], Rgb { r: 11, g: 22, b: 33 });
}

#[test]
fn rgbx_with_exact_three_byte_stride() {
    let payload: [u8; 3] = [1, 2, 3];
    let data = capture(1, 1, 3, 4, &payload);
    let raster = decode(&data).unwrap();
    assert_eq!(raster.pixels[0], Rgb { r: 1, g: 2, b: 3 });
}

#[test]
fn bgrx_reuses_byte_one_for_blue_and_skips_byte_zero() {
    let payload: [u8; 4] = [10, 20, 30, 40];
    let data = capture(1, 1, 4, 3, &payload);
    let raster = decode(&data).unwrap();
    assert_eq!(raster.pixels[0], Rgb { r: 30, g: 20, b: 20 });
}

#[test]
fn depth_2000_is_mid_gray_127() {
    let data = capture(1, 1, 4, 2, &depth_pixel(2000.0));
    let raster = decode(&data).unwrap();
    assert_eq!(raster.pixels[0], Rgb { r: 127, g: 127, b: 127 });
}

#[test]
fn depth_4000_is_white_and_0_is_black() {
    let data = capture(2, 1, 4, 2, &[depth_pixel(4000.0), depth_pixel(0.0)].concat());
    let raster = decode(&data).unwrap();
    assert_eq!(raster.pixels[0], Rgb { r: 255, g: 255, b: 255 });
    assert_eq!(raster.pixels[1], Rgb { r: 0, g: 0, b: 0 });
}

#[test]
fn depth_values_scale_and_saturate() {
    let cases: [(f32, u8); 7] = [
        (1000.0, 63),     // 1000/4000*255 = 63.75, truncated
        (2500.0, 159),    // 159.375
        (3999.0, 254),    // 254.936
        (8000.0, 255),    // beyond the range: saturates
        (-1.0, 0),        // negative: clamps to black
        (f32::INFINITY, 255),
        (f32::NAN, 0),
    ];
    for (depth, level) in cases {
        let data = capture(1, 1, 4, 2, &depth_pixel(depth));
        let raster = decode(&data).unwrap();
        assert_eq!(raster.pixels[0], Rgb { r: level, g: level, b: level }, "depth {depth}");
    }
}

#[test]
fn depth_subnormal_and_negative_zero_are_black() {
    let tiny = f32::from_bits(1); // smallest positive subnormal
    let data = capture(2, 1, 4, 2, &[depth_pixel(tiny), depth_pixel(-0.0)].concat());
    let raster = decode(&data).unwrap();
    assert_eq!(raster.pixels[0], Rgb { r: 0, g: 0, b: 0 });
    assert_eq!(raster.pixels[1], Rgb { r: 0, g: 0, b: 0 });
}

#[test]
fn unknown_format_99_fails_before_any_pixel_is_read() {
    // no payload at all: the tag must be rejected before a pixel is touched
    let data = capture(4, 4, 4, 99, &[]);
    assert_eq!(decode(&data), Err(DecodeError::UnknownFormat(99)));
}

#[test]
fn thirty_one_bytes_is_truncated_input() {
    let data: Vec<u8> = vec![0; 31];
    assert_eq!(decode(&data), Err(DecodeError::TruncatedInput));
}

#[test]
fn empty_input_is_truncated_input() {
    assert_eq!(decode(&[]), Err(DecodeError::TruncatedInput));
}

#[test]
fn short_payload_fails_at_first_missing_cell() {
    // 3x2 grid, 3 bytes per pixel, needs 18 payload bytes; 8 supply cells
    // 0 and 1 in full, so the first under-supplied cell is (2, 0)
    let data = capture(3, 2, 3, 4, &[0; 8]);
    assert_eq!(decode(&data), Err(DecodeError::PixelSliceTooShort { x: 2, y: 0 }));
}

#[test]
fn short_payload_failure_coordinate_wraps_to_next_row() {
    // 11 bytes supply three full cells of the 3x2 grid; cell 3 is (0, 1)
    let data = capture(3, 2, 3, 4, &[0; 11]);
    assert_eq!(decode(&data), Err(DecodeError::PixelSliceTooShort { x: 0, y: 1 }));
}

#[test]
fn stride_smaller_than_color_format_fails_at_origin() {
    let data = capture(1, 1, 2, 4, &[1, 2]);
    assert_eq!(decode(&data), Err(DecodeError::PixelSliceTooShort { x: 0, y: 0 }));
}

#[test]
fn depth_format_requires_four_byte_stride() {
    let data = capture(1, 1, 3, 2, &[1, 2, 3]);
    assert_eq!(decode(&data), Err(DecodeError::PixelSliceTooShort { x: 0, y: 0 }));
    let wide = capture(1, 1, 5, 2, &[1, 2, 3, 4, 5]);
    assert_eq!(decode(&wide), Err(DecodeError::PixelSliceTooShort { x: 0, y: 0 }));
}

#[test]
fn header_field_overflow_is_reported_by_name() {
    let data = capture(1 << 32, 1, 4, 2, &[]);
    assert_eq!(decode(&data), Err(DecodeError::FieldOverflow(HeaderField::Width)));
    let data = capture(1, u64::MAX, 4, 2, &[]);
    assert_eq!(decode(&data), Err(DecodeError::FieldOverflow(HeaderField::Height)));
    let data = capture(1, 1, 1 << 40, 2, &[]);
    assert_eq!(decode(&data), Err(DecodeError::FieldOverflow(HeaderField::BytesPerPixel)));
    let data = capture(1, 1, 4, 1 << 33, &[]);
    assert_eq!(decode(&data), Err(DecodeError::FieldOverflow(HeaderField::FormatTag)));
}

#[test]
fn overflow_check_runs_in_field_order() {
    // both width and the tag overflow: width is reported first
    let data = capture(u64::MAX, 1, 4, u64::MAX, &[]);
    assert_eq!(decode(&data), Err(DecodeError::FieldOverflow(HeaderField::Width)));
}

#[test]
fn parse_header_reads_the_four_fields() {
    let data = capture(640, 480, 4, 2, &[]);
    let header = parse_header(&data).unwrap();
    assert_eq!(header.width, 640);
    assert_eq!(header.height, 480);
    assert_eq!(header.bytes_per_pixel, 4);
    assert_eq!(header.format_tag, 2);
}

#[test]
fn format_from_raw_matches_the_tag_table() {
    assert_eq!(Format::from_raw(2), Ok(Format::Float));
    assert_eq!(Format::from_raw(3), Ok(Format::Bgrx));
    assert_eq!(Format::from_raw(4), Ok(Format::Rgbx));
    assert_eq!(Format::from_raw(0), Err(0));
    assert_eq!(Format::from_raw(99), Err(99));
}

#[test]
fn decode_pixel_rejects_short_slices() {
    assert_eq!(decode_pixel(Format::Rgbx, &[1, 2]), None);
    assert_eq!(decode_pixel(Format::Float, &[1, 2, 3]), None);
    assert_eq!(decode_pixel(Format::Float, &[1, 2, 3, 4, 5]), None);
    assert_eq!(
        decode_pixel(Format::Rgbx, &[9, 8, 7, 6]),
        Some(Rgb { r: 9, g: 8, b: 7 })
    );
}

#[test]
fn decode_pixel_depth_matches_grid_decode() {
    let px = depth_pixel(2000.0);
    assert_eq!(decode_pixel(Format::Float, &px), Some(Rgb { r: 127, g: 127, b: 127 }));
}
