use rjimp::Color;
use rjimp::ColorRGBA;
use rjimp::bitmap::Bitmap;

fn zero_buffer(n: usize) -> Vec<ColorRGBA> {
    vec![ColorRGBA(0, 0, 0, 0); n]
}

#[test]
fn color_constants_pack_big_endian() {
    assert_eq!(Color::red().as_hex(), 0xFF0000FF);
    assert_eq!(Color::green().as_hex(), 0x00FF00FF);
    assert_eq!(Color::blue().as_hex(), 0x0000FFFF);
}

#[test]
fn three_channel_color_widens_with_opaque_alpha() {
    assert_eq!(Color::Rgb(1, 2, 3).as_rgba(), ColorRGBA(1, 2, 3, 0xFF));
    assert_eq!(Color::Rgba(1, 2, 3, 4).as_rgba(), ColorRGBA(1, 2, 3, 4));
    assert_eq!(Color::Rgb(0x12, 0x34, 0x56).as_hex(), 0x123456FF);
}

#[test]
fn canonical_color_bytes_and_int() {
    let c = ColorRGBA(0x12, 0x34, 0x56, 0x78);
    assert_eq!(c.to_bytes(), [0x12, 0x34, 0x56, 0x78]);
    assert_eq!(c.to_int(), 0x12345678);
    assert_eq!(ColorRGBA(0, 0, 0, 0).to_int(), 0);
    assert_eq!(ColorRGBA(255, 255, 255, 255).to_int(), 0xFFFFFFFF);
}

#[test]
fn scan_from_last_coordinate_yields_it_alone() {
    let b = Bitmap { data: zero_buffer(12), width: 4, height: 3 };
    let mut s = b.scan(3, 2);
    assert_eq!(s.next(), Some((3, 2, 11)));
    assert_eq!(s.next(), None);
    assert_eq!(s.next(), None);
}

#[test]
fn scan_order_is_column_major_row_major_indexed() {
    let b = Bitmap { data: zero_buffer(6), width: 3, height: 2 };
    let mut s = b.scan(0, 0);
    let mut items = Vec::new();
    while let Some(t) = s.next() {
        items.push(t);
    }
    assert_eq!(
        items,
        vec![(0, 0, 0), (0, 1, 3), (1, 0, 1), (1, 1, 4), (2, 0, 2), (2, 1, 5)]
    );
}

#[test]
fn scan_start_row_applies_to_first_column_only() {
    let b = Bitmap { data: zero_buffer(9), width: 3, height: 3 };
    let mut s = b.scan(1, 1);
    let mut items = Vec::new();
    while let Some(t) = s.next() {
        items.push(t);
    }
    assert_eq!(
        items,
        vec![(1, 1, 4), (1, 2, 7), (2, 0, 2), (2, 1, 5), (2, 2, 8)]
    );
}

#[test]
fn scan_start_row_past_height_moves_to_next_column() {
    let b = Bitmap { data: zero_buffer(4), width: 2, height: 2 };
    let mut s = b.scan(0, 5);
    let mut items = Vec::new();
    while let Some(t) = s.next() {
        items.push(t);
    }
    assert_eq!(items, vec![(1, 0, 1), (1, 1, 3)]);
}

#[test]
fn scan_start_column_past_width_is_empty() {
    let b = Bitmap { data: zero_buffer(4), width: 2, height: 2 };
    let mut s = b.scan(2, 0);
    assert_eq!(s.next(), None);
}

#[test]
fn set_pixel_by_index_out_of_range_fails_and_keeps_buffer() {
    let mut b = Bitmap { data: zero_buffer(4), width: 2, height: 2 };
    let before = b.data.clone();
    assert!(!b.set_pixel_by_index(4, Color::red()));
    assert!(!b.set_pixel_by_index(usize::MAX, Color::red()));
    assert_eq!(b.data, before);
}

#[test]
fn set_pixel_by_index_in_range_overwrites_canonical_value() {
    let mut b = Bitmap { data: zero_buffer(4), width: 2, height: 2 };
    assert!(b.set_pixel_by_index(2, Color::Rgb(9, 8, 7)));
    assert_eq!(b.data[2], ColorRGBA(9, 8, 7, 0xFF));
    assert_eq!(b.data[0], ColorRGBA(0, 0, 0, 0));
}

#[test]
fn set_pixel_computes_row_major_index_without_column_check() {
    let mut b = Bitmap { data: zero_buffer(4), width: 2, height: 2 };
    assert!(b.set_pixel(1, 1, Color::green()));
    assert_eq!(b.data[3], ColorRGBA(0, 0xFF, 0, 0xFF));
    // x at the width is not rejected: the index wraps into the next row
    assert!(b.set_pixel(2, 0, Color::red()));
    assert_eq!(b.data[2], ColorRGBA(0xFF, 0, 0, 0xFF));
    // an index past the buffer fails
    assert!(!b.set_pixel(0, 2, Color::red()));
}
