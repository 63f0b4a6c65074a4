use rjimp::Error;
use rjimp::ImageHandler;
use rjimp::JPEGHandler;
use rjimp::PNGHandler;
use rjimp::handler::jpeg::JPEGError;
use rjimp::handler::jpeg::JpegPixelKind;
use rjimp::handler::jpeg::JpegRaw;
use rjimp::handler::png::PNGError;
use rjimp::handler::png::PngColorKind;
use rjimp::handler::png::PngRaw;

fn png_raw(
    color: PngColorKind,
    width: u32,
    height: u32,
    bytes: Vec<u8>,
    palette: Option<Vec<u8>>,
) -> PngRaw {
    PngRaw { animated: false, width, height, color, palette, bytes }
}

#[test]
fn grayscale_decode_replicates_gray_value() {
    let h = PNGHandler::from_raw(png_raw(PngColorKind::Grayscale, 2, 2, vec![7, 7, 7, 7], None))
        .unwrap();
    for i in 0..4 {
        assert_eq!(h.get_pixel_color_by_index(i), Some(0x070707FF));
    }
}

#[test]
fn indexed_decode_looks_up_palette_entry_as_gray() {
    let h = PNGHandler::from_raw(png_raw(
        PngColorKind::Indexed,
        1,
        1,
        vec![1],
        Some(vec![10, 20, 30]),
    ))
    .unwrap();
    assert_eq!(h.get_pixel_color(0, 0), Some(0x141414FF));
}

#[test]
fn indexed_decode_rejects_dangling_palette_index() {
    let r = PNGHandler::from_raw(png_raw(
        PngColorKind::Indexed,
        1,
        1,
        vec![3],
        Some(vec![10, 20, 30]),
    ));
    assert!(matches!(r, Err(Error::InvalidImage)));
}

#[test]
fn indexed_decode_rejects_missing_palette() {
    let r = PNGHandler::from_raw(png_raw(PngColorKind::Indexed, 1, 1, vec![0], None));
    assert!(matches!(r, Err(Error::InvalidImage)));
}

#[test]
fn gray_alpha_decode_keeps_second_channel_as_alpha() {
    let h = PNGHandler::from_raw(png_raw(PngColorKind::GrayscaleAlpha, 1, 1, vec![5, 100], None))
        .unwrap();
    assert_eq!(h.get_pixel_color(0, 0), Some(0x05050564));
}

#[test]
fn rgb_decode_copies_channels_with_opaque_alpha() {
    let h = PNGHandler::from_raw(png_raw(PngColorKind::Rgb, 1, 1, vec![1, 2, 3], None)).unwrap();
    assert_eq!(h.get_pixel_color(0, 0), Some(0x010203FF));
}

#[test]
fn animated_source_fails_with_structural_error_not_codec_error() {
    let r = PNGHandler::from_raw(PngRaw {
        animated: true,
        width: 1,
        height: 1,
        color: PngColorKind::Rgba,
        palette: None,
        bytes: vec![1, 2, 3, 4],
    });
    match r {
        Err(Error::InvalidImage) => {}
        Err(Error::Handler(_)) => panic!("animated source must not report a codec error"),
        Err(Error::Io(_)) => panic!("animated source must not report an I/O error"),
        Ok(_) => panic!("animated source must be rejected"),
    }
}

#[test]
fn decode_rejects_pixel_count_diverging_from_dimensions() {
    let r = PNGHandler::from_raw(png_raw(PngColorKind::Grayscale, 2, 2, vec![7, 7, 7], None));
    assert!(matches!(r, Err(Error::InvalidImage)));
}

#[test]
fn cmyk_decode_combines_channels_with_black() {
    let h = JPEGHandler::from_raw(JpegRaw {
        width: 2,
        height: 1,
        kind: JpegPixelKind::Cmyk32,
        bytes: vec![0, 0, 0, 0, 255, 0, 0, 0],
    })
    .unwrap();
    assert_eq!(h.get_pixel_color(0, 0), Some(0xFFFFFFFF));
    assert_eq!(h.get_pixel_color(1, 0), Some(0x00FFFFFF));
}

#[test]
fn cmyk_decode_black_channel_darkens_every_channel() {
    let h = JPEGHandler::from_raw(JpegRaw {
        width: 1,
        height: 1,
        kind: JpegPixelKind::Cmyk32,
        bytes: vec![0, 0, 0, 255],
    })
    .unwrap();
    assert_eq!(h.get_pixel_color(0, 0), Some(0x000000FF));
}

#[test]
fn sixteen_bit_gray_scales_toward_zero() {
    let h = JPEGHandler::from_raw(JpegRaw {
        width: 2,
        height: 1,
        kind: JpegPixelKind::L16,
        bytes: vec![0xFF, 0xFF, 0x80, 0x00],
    })
    .unwrap();
    // 65535 * 255 / 65535 = 255; 32768 * 255 / 65535 = 127.5 rounded toward zero
    assert_eq!(h.get_pixel_color(0, 0), Some(0xFFFFFFFF));
    assert_eq!(h.get_pixel_color(1, 0), Some(0x7F7F7FFF));
}

#[test]
fn jpeg_eight_bit_gray_decode() {
    let h = JPEGHandler::from_raw(JpegRaw {
        width: 1,
        height: 1,
        kind: JpegPixelKind::L8,
        bytes: vec![9],
    })
    .unwrap();
    assert_eq!(h.get_pixel_color(0, 0), Some(0x090909FF));
}

#[test]
fn pixel_index_then_color_by_index_equals_direct_color() {
    let h = PNGHandler::from_raw(png_raw(
        PngColorKind::Rgba,
        2,
        2,
        vec![1, 2, 3, 4, 5, 6, 7, 8, 9, 10, 11, 12, 13, 14, 15, 16],
        None,
    ))
    .unwrap();
    for x in 0..2 {
        for y in 0..2 {
            let via_index = h.get_pixel_index(x, y).and_then(|i| h.get_pixel_color_by_index(i));
            assert_eq!(via_index, h.get_pixel_color(x, y));
            assert!(via_index.is_some());
        }
    }
    assert_eq!(h.get_pixel_color(0, 1), Some(0x090A0B0C));
}

#[test]
fn pixel_index_treats_coordinate_in_range_unless_both_exceed() {
    let h = PNGHandler::from_raw(png_raw(PngColorKind::Grayscale, 2, 2, vec![0; 4], None))
        .unwrap();
    assert_eq!(h.get_pixel_index(1, 1), Some(3));
    // x past the width alone is still mapped to an index: the lax bounds rule
    assert_eq!(h.get_pixel_index(5, 0), Some(5));
    assert_eq!(h.get_pixel_color(5, 0), None);
    // only both coordinates out of range yield an absent index
    assert_eq!(h.get_pixel_index(5, 7), None);
    assert_eq!(h.get_pixel_color(5, 7), None);
}

#[test]
fn hex_color_renders_uppercase_without_leading_zeros() {
    let h = PNGHandler::from_raw(png_raw(PngColorKind::Grayscale, 1, 1, vec![7], None)).unwrap();
    assert_eq!(h.get_pixel_hex_color(0, 0), Some("#70707FF".to_string()));
    assert_eq!(h.get_pixel_hex_color_by_index(0), Some("#70707FF".to_string()));
    assert_eq!(h.get_pixel_hex_color_by_index(1), None);
    let white = PNGHandler::from_raw(png_raw(PngColorKind::Grayscale, 1, 1, vec![255], None))
        .unwrap();
    assert_eq!(white.get_pixel_hex_color(0, 0), Some("#FFFFFFFF".to_string()));
}

#[test]
fn empty_handlers_have_no_pixels() {
    let p = PNGHandler::empty().unwrap();
    assert_eq!(p.width(), 0);
    assert_eq!(p.height(), 0);
    assert_eq!(p.get_pixel_color_by_index(0), None);
    let j = JPEGHandler::empty().unwrap();
    assert_eq!(j.width(), 0);
    assert_eq!(j.height(), 0);
}

#[test]
fn mime_types_are_format_constants() {
    assert_eq!(PNGHandler::get_mime(), "image/png");
    assert_eq!(JPEGHandler::get_mime(), "image/jpeg");
}

#[test]
fn garbage_bytes_fail_with_codec_decoding_error() {
    let r = PNGHandler::create(vec![1, 2, 3, 4]);
    assert!(matches!(r, Err(Error::Handler(PNGError::Decoding(_)))));
    let r = JPEGHandler::create(vec![1, 2, 3, 4]);
    assert!(matches!(r, Err(Error::Handler(JPEGError::Decoding(_)))));
}

#[test]
fn zero_size_encode_fails_with_codec_encoding_error() {
    let p = PNGHandler::empty().unwrap();
    assert!(matches!(p.encode(), Err(Error::Handler(PNGError::Encoding(_)))));
    let j = JPEGHandler::empty().unwrap();
    assert!(matches!(j.encode(), Err(Error::Handler(JPEGError::Encoding(_)))));
}

#[test]
fn png_round_trip_preserves_every_canonical_pixel() {
    let pixels: Vec<u8> = vec![
        1, 2, 3, 4, 5, 6, 7, 8, 9, 10, 11, 12, 250, 251, 252, 253,
    ];
    let h = PNGHandler::from_raw(png_raw(PngColorKind::Rgba, 2, 2, pixels, None)).unwrap();
    let bytes = h.encode().unwrap();
    let back = PNGHandler::create(bytes).unwrap();
    assert_eq!(back.width(), 2);
    assert_eq!(back.height(), 2);
    for i in 0..4 {
        assert_eq!(back.get_pixel_color_by_index(i), h.get_pixel_color_by_index(i));
    }
}

#[test]
fn jpeg_encode_then_decode_keeps_dimensions_and_near_gray() {
    let h = JPEGHandler::from_raw(JpegRaw {
        width: 16,
        height: 16,
        kind: JpegPixelKind::L8,
        bytes: vec![128; 256],
    })
    .unwrap();
    let bytes = h.encode().unwrap();
    let back = JPEGHandler::create(bytes).unwrap();
    assert_eq!(back.width(), 16);
    assert_eq!(back.height(), 16);
    let c = back.get_pixel_color(8, 8).unwrap();
    let r = (c >> 24) & 0xFF;
    assert!(r >= 120 && r <= 136, "round-tripped gray strayed: {r}");
}

#[test]
fn well_formedness_is_testable_at_run_time() {
    let h = PNGHandler::from_raw(png_raw(PngColorKind::Grayscale, 2, 2, vec![0; 4], None))
        .unwrap();
    assert!(h.check_wf());
    let broken = PNGHandler { data: Vec::new(), width: 5, height: 5 };
    assert!(!broken.check_wf());
    let j = JPEGHandler::empty().unwrap();
    assert!(j.check_wf());
    let oversized = JPEGHandler { data: Vec::new(), width: 70000, height: 0 };
    assert!(!oversized.check_wf());
}
