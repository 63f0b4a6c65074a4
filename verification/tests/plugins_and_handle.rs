use base64::Engine;
use rjimp::ColorRGBA;
use rjimp::ImageHandler;
use rjimp::PNGHandler;
use rjimp::RJimp;
use rjimp::bitmap::Bitmap;
use rjimp::handler::png::PngColorKind;
use rjimp::handler::png::PngRaw;
use rjimp::plugins::circle::CircleOptions;
use rjimp::plugins::circle::circle;
use rjimp::plugins::flip::FlipOptions;
use rjimp::plugins::flip::flip;

fn numbered_bitmap(width: u32, height: u32) -> Bitmap {
    let n = (width * height) as usize;
    let data: Vec<ColorRGBA> = (0..n).map(|i| ColorRGBA(i as u8, 0, 0, 255)).collect();
    Bitmap { data, width, height }
}

#[test]
fn horizontal_flip_mirrors_columns() {
    let b = numbered_bitmap(3, 2);
    let src = b.data.clone();
    let f = flip(FlipOptions { horizontal: true, vertical: false }, b);
    for y in 0..2u32 {
        for x in 0..3u32 {
            let from = (3 * y + x) as usize;
            let to = (3 * y + (2 - x)) as usize;
            assert_eq!(f.data[to], src[from]);
        }
    }
}

#[test]
fn vertical_flip_mirrors_rows() {
    let b = numbered_bitmap(3, 2);
    let src = b.data.clone();
    let f = flip(FlipOptions { horizontal: false, vertical: true }, b);
    for y in 0..2u32 {
        for x in 0..3u32 {
            let from = (3 * y + x) as usize;
            let to = (3 * (1 - y) + x) as usize;
            assert_eq!(f.data[to], src[from]);
        }
    }
}

#[test]
fn flipping_twice_restores_the_buffer() {
    let b = numbered_bitmap(4, 3);
    let original = b.data.clone();
    let once = flip(FlipOptions { horizontal: true, vertical: false }, b);
    let twice = flip(FlipOptions { horizontal: true, vertical: false }, once);
    assert_eq!(twice.data, original);
    let b2 = numbered_bitmap(4, 3);
    let once2 = flip(FlipOptions { horizontal: true, vertical: true }, b2);
    let twice2 = flip(FlipOptions { horizontal: true, vertical: true }, once2);
    assert_eq!(twice2.data, original);
}

#[test]
fn flip_defaults_to_horizontal_only() {
    let d = FlipOptions::default();
    assert!(d.horizontal);
    assert!(!d.vertical);
}

#[test]
fn circle_mask_clears_outside_keeps_inside_shades_rim() {
    let data: Vec<ColorRGBA> = (0..24).map(|i| ColorRGBA(i as u8, 50, 60, 200)).collect();
    let b = Bitmap { data, width: 8, height: 3 };
    let src = b.data.clone();
    let opts = CircleOptions { radius: Some(5), x: Some(0), y: Some(0) };
    let m = circle(opts, b);
    // distance 7 == radius + 2: alpha forced to zero
    let far = m.data[7];
    assert_eq!(far.3, 0);
    assert_eq!((far.0, far.1, far.2), (src[7].0, src[7].1, src[7].2));
    // distance 0 == radius - 5: alpha untouched
    assert_eq!(m.data[0], src[0]);
    // distance 4 (inside radius - 1): alpha untouched
    assert_eq!(m.data[4], src[4]);
    // (4, 2): squared distance 20, in the one-pixel rim band
    let rim = m.data[8 * 2 + 4];
    let expected = (255.0 * (5.0 - (20.0f64).sqrt())).round() as u8;
    assert_eq!(rim.3, expected);
    assert_eq!(rim.3, 135);
    assert_eq!((rim.0, rim.1, rim.2), (src[20].0, src[20].1, src[20].2));
}

#[test]
fn circle_mask_defaults_center_the_image() {
    // 4x4, default radius min(4,4)/2 = 2, default center (2, 2)
    let data: Vec<ColorRGBA> = vec![ColorRGBA(1, 2, 3, 99); 16];
    let b = Bitmap { data, width: 4, height: 4 };
    let m = circle(CircleOptions::default(), b);
    // the corner (0,0) is at squared distance 8 >= 4: cleared
    assert_eq!(m.data[0].3, 0);
    // the center keeps its alpha
    assert_eq!(m.data[4 * 2 + 2].3, 99);
}

#[test]
fn plugin_invocation_mutates_the_handler_buffer() {
    let mut h = PNGHandler::from_raw(PngRaw {
        animated: false,
        width: 3,
        height: 1,
        color: PngColorKind::Rgb,
        palette: None,
        bytes: vec![1, 0, 0, 2, 0, 0, 3, 0, 0],
    })
    .unwrap();
    h.plugin(flip, FlipOptions::default());
    assert_eq!(h.get_pixel_color(0, 0), Some(0x030000FF));
    assert_eq!(h.get_pixel_color(1, 0), Some(0x020000FF));
    assert_eq!(h.get_pixel_color(2, 0), Some(0x010000FF));
    assert_eq!(h.width(), 3);
    assert_eq!(h.height(), 1);
}

#[test]
fn bitmap_view_hands_buffer_out_and_plugins_hand_it_back() {
    let mut h = PNGHandler::from_raw(PngRaw {
        animated: false,
        width: 2,
        height: 1,
        color: PngColorKind::Grayscale,
        palette: None,
        bytes: vec![9, 9],
    })
    .unwrap();
    let view = h.bitmap();
    assert_eq!(view.width, 2);
    assert_eq!(view.height, 1);
    assert_eq!(view.data.len(), 2);
    assert_eq!(h.get_pixel_color_by_index(0), None);
}

#[test]
fn from_vec_decodes_what_encode_produced() {
    let h = PNGHandler::from_raw(PngRaw {
        animated: false,
        width: 2,
        height: 1,
        color: PngColorKind::Grayscale,
        palette: None,
        bytes: vec![11, 22],
    })
    .unwrap();
    let bytes = h.encode().unwrap();
    let img = RJimp::<PNGHandler>::from_vec(bytes).unwrap();
    assert_eq!(img.handler.width(), 2);
    assert_eq!(img.handler.height(), 1);
    assert_eq!(img.handler.get_pixel_color(0, 0), Some(0x0B0B0BFF));
    assert_eq!(img.handler.get_pixel_color(1, 0), Some(0x161616FF));
}

#[test]
fn invalid_bytes_fail_from_vec_with_the_decode_error() {
    let r = RJimp::<PNGHandler>::from_vec(vec![0, 1, 2]);
    assert!(matches!(
        r,
        Err(rjimp::Error::Handler(rjimp::handler::png::PNGError::Decoding(_)))
    ));
}

#[test]
fn data_uri_wraps_base64_of_the_encoded_bytes() {
    let h = PNGHandler::from_raw(PngRaw {
        animated: false,
        width: 1,
        height: 1,
        color: PngColorKind::Rgba,
        palette: None,
        bytes: vec![10, 20, 30, 40],
    })
    .unwrap();
    let encoded = h.encode().unwrap();
    let img = RJimp { handler: h };
    let uri = img.get_buffer64().unwrap();
    let prefix = "data:image/png;base64,";
    assert!(uri.starts_with(prefix), "unexpected data URI: {uri}");
    let payload = &uri[prefix.len()..];
    let decoded = base64::engine::general_purpose::STANDARD.decode(payload).unwrap();
    assert_eq!(decoded, encoded);
}
