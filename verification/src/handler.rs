//! The format-handler capability set: every supported container format
//! decodes raw bytes into one canonical pixel buffer, encodes that buffer
//! back into raw bytes, and answers the uniform pixel queries below.

pub mod jpeg;
pub mod png;

use vstd::prelude::*;
use vstd::string::StringExecFns;
use vstd::arithmetic::div_mod::lemma_fundamental_div_mod;
use vstd::arithmetic::div_mod::lemma_mod_division_less_than_divisor;
use crate::bitmap::Bitmap;
use crate::color::ColorRGBA;
use crate::error::Error;
use crate::error::HandlerError;

verus! {

/// The row-major index a coordinate query maps to. A coordinate counts as
/// out of range only when `x` and `y` are both past the dimensions — a
/// deliberately lax rule: a coordinate with only `x` past the width still
/// maps to an index, which can belong to a later row — and when the index
/// cannot be represented on this machine.
pub open spec fn spec_pixel_index(w: u32, h: u32, x: u32, y: u32) -> Option<usize> {
    if x >= w && y >= h {
        None
    } else if w * y + x <= usize::MAX {
        Some((w * y + x) as usize)
    } else {
        None
    }
}

/// The packed color at a buffer index, absent when the index is out of range.
pub open spec fn spec_pixel_color_by_index(pixels: Seq<ColorRGBA>, index: int) -> Option<u32> {
    if 0 <= index < pixels.len() {
        Some(pixels[index].spec_to_int())
    } else {
        None
    }
}

/// The packed color at a coordinate: the index lookup followed by the
/// indexed color lookup.
pub open spec fn spec_pixel_color(pixels: Seq<ColorRGBA>, w: u32, h: u32, x: u32, y: u32) -> Option<
    u32,
> {
    match spec_pixel_index(w, h, x, y) {
        Some(i) => spec_pixel_color_by_index(pixels, i as int),
        None => None,
    }
}

/// Looking up a pixel index of an in-range coordinate and then the color at
/// that index agrees with the direct coordinate color lookup.
pub proof fn lemma_pixel_access(pixels: Seq<ColorRGBA>, w: u32, h: u32, x: u32, y: u32)
    requires
        x < w,
        y < h,
        w * h <= usize::MAX,
    ensures
        spec_pixel_index(w, h, x, y) is Some,
        spec_pixel_color(pixels, w, h, x, y) == spec_pixel_color_by_index(
            pixels,
            spec_pixel_index(w, h, x, y)->Some_0 as int,
        ),
{
    assert(w * y + x < w * h) by (nonlinear_arith)
        requires
            0 <= x < w,
            0 <= y < h,
    ;
}

/// The canonical pixel of a gray sample: the value replicated into R, G and
/// B, fully opaque.
pub open spec fn gray_pixel(b: u8) -> ColorRGBA {
    ColorRGBA(b, b, b, 0xFF)
}

/// 8-bit grayscale samples normalized pixel by pixel.
pub open spec fn spec_gray_pixels(bytes: Seq<u8>) -> Seq<ColorRGBA> {
    Seq::new(bytes.len(), |i: int| gray_pixel(bytes[i]))
}

/// 3-channel RGB samples normalized pixel by pixel: channels copied, alpha 255.
pub open spec fn spec_rgb_pixels(bytes: Seq<u8>) -> Seq<ColorRGBA> {
    Seq::new(
        bytes.len() / 3,
        |i: int| ColorRGBA(bytes[3 * i], bytes[3 * i + 1], bytes[3 * i + 2], 0xFF),
    )
}

/// 4-channel RGBA samples copied as they stand.
pub open spec fn spec_rgba_pixels(bytes: Seq<u8>) -> Seq<ColorRGBA> {
    Seq::new(
        bytes.len() / 4,
        |i: int| ColorRGBA(bytes[4 * i], bytes[4 * i + 1], bytes[4 * i + 2], bytes[4 * i + 3]),
    )
}

/// The canonical buffer serialized as 4 bytes per pixel, R, G, B, A in order:
/// the byte layer every encoder writes.
pub open spec fn spec_rgba_bytes(pixels: Seq<ColorRGBA>) -> Seq<u8> {
    Seq::new(
        pixels.len() * 4,
        |i: int|
            if i % 4 == 0 {
                pixels[i / 4].0
            } else if i % 4 == 1 {
                pixels[i / 4].1
            } else if i % 4 == 2 {
                pixels[i / 4].2
            } else {
                pixels[i / 4].3
            },
    )
}

/// Serialization into RGBA bytes is lossless over the canonical form:
/// normalizing the serialized bytes back restores every canonical pixel
/// value exactly.
pub proof fn lemma_rgba_round_trip(pixels: Seq<ColorRGBA>)
    ensures
        spec_rgba_pixels(spec_rgba_bytes(pixels)) == pixels,
{
    let bytes = spec_rgba_bytes(pixels);
    assert(bytes.len() == pixels.len() * 4);
    assert forall|i: int| 0 <= i < pixels.len() implies spec_rgba_pixels(bytes)[i] == pixels[i] by {
        assert((4 * i) / 4 == i && (4 * i) % 4 == 0);
        assert((4 * i + 1) / 4 == i && (4 * i + 1) % 4 == 1);
        assert((4 * i + 2) / 4 == i && (4 * i + 2) % 4 == 2);
        assert((4 * i + 3) / 4 == i && (4 * i + 3) % 4 == 3);
    }
    assert(spec_rgba_pixels(bytes) =~= pixels);
}

/// Normalizes a buffer of 8-bit grayscale samples.
pub fn gray_to_pixels(bytes: &Vec<u8>) -> (v: Vec<ColorRGBA>)
    ensures
        v@ == spec_gray_pixels(bytes@),
{
    let mut v: Vec<ColorRGBA> = Vec::new();
    let mut i: usize = 0;
    while i < bytes.len()
        invariant
            i <= bytes@.len(),
            v@.len() == i,
            forall|j: int| 0 <= j < i ==> v@[j] == gray_pixel(bytes@[j]),
        decreases bytes@.len() - i,
    {
        let b = bytes[i];
        v.push(ColorRGBA(b, b, b, 0xFF));
        i = i + 1;
    }
    proof {
        assert(v@ =~= spec_gray_pixels(bytes@));
    }
    v
}

/// Normalizes a buffer of 3-byte RGB samples.
pub fn rgb_to_pixels(bytes: &Vec<u8>) -> (v: Vec<ColorRGBA>)
    ensures
        v@ == spec_rgb_pixels(bytes@),
{
    let n = bytes.len() / 3;
    let mut v: Vec<ColorRGBA> = Vec::new();
    let mut i: usize = 0;
    while i < n
        invariant
            bytes@.len() <= usize::MAX,
            n == bytes@.len() / 3,
            i <= n,
            v@.len() == i,
            forall|j: int| 0 <= j < i ==> v@[j] == spec_rgb_pixels(bytes@)[j],
        decreases n - i,
    {
        proof {
            lemma_fundamental_div_mod(bytes@.len() as int, 3);
            lemma_mod_division_less_than_divisor(bytes@.len() as int, 3);
            assert(3 * (i as int) + 2 < bytes@.len());
        }
        v.push(ColorRGBA(bytes[3 * i], bytes[3 * i + 1], bytes[3 * i + 2], 0xFF));
        i = i + 1;
    }
    proof {
        assert(v@ =~= spec_rgb_pixels(bytes@));
    }
    v
}

/// Copies a buffer of 4-byte RGBA samples.
pub fn rgba_to_pixels(bytes: &Vec<u8>) -> (v: Vec<ColorRGBA>)
    ensures
        v@ == spec_rgba_pixels(bytes@),
{
    let n = bytes.len() / 4;
    let mut v: Vec<ColorRGBA> = Vec::new();
    let mut i: usize = 0;
    while i < n
        invariant
            bytes@.len() <= usize::MAX,
            n == bytes@.len() / 4,
            i <= n,
            v@.len() == i,
            forall|j: int| 0 <= j < i ==> v@[j] == spec_rgba_pixels(bytes@)[j],
        decreases n - i,
    {
        proof {
            lemma_fundamental_div_mod(bytes@.len() as int, 4);
            lemma_mod_division_less_than_divisor(bytes@.len() as int, 4);
            assert(4 * (i as int) + 3 < bytes@.len());
        }
        v.push(ColorRGBA(bytes[4 * i], bytes[4 * i + 1], bytes[4 * i + 2], bytes[4 * i + 3]));
        i = i + 1;
    }
    proof {
        assert(v@ =~= spec_rgba_pixels(bytes@));
    }
    v
}

/// Serializes the canonical buffer as 4 bytes per pixel, R, G, B, A.
pub fn rgba_bytes(pixels: &Vec<ColorRGBA>) -> (v: Vec<u8>)
    ensures
        v@ == spec_rgba_bytes(pixels@),
{
    let mut v: Vec<u8> = Vec::new();
    let mut i: usize = 0;
    while i < pixels.len()
        invariant
            i <= pixels@.len(),
            v@.len() == 4 * i,
            forall|j: int| 0 <= j < v@.len() ==> v@[j] == spec_rgba_bytes(pixels@)[j],
        decreases pixels@.len() - i,
    {
        let p = pixels[i];
        v.push(p.0);
        v.push(p.1);
        v.push(p.2);
        v.push(p.3);
        proof {
            let gi = i as int;
            assert((4 * gi) / 4 == gi && (4 * gi) % 4 == 0);
            assert((4 * gi + 1) / 4 == gi && (4 * gi + 1) % 4 == 1);
            assert((4 * gi + 2) / 4 == gi && (4 * gi + 2) % 4 == 2);
            assert((4 * gi + 3) / 4 == gi && (4 * gi + 3) % 4 == 3);
        }
        i = i + 1;
    }
    proof {
        assert(v@ =~= spec_rgba_bytes(pixels@));
    }
    v
}

/// The upper-case hexadecimal digit for a value below 16.
pub open spec fn hex_digit(d: int) -> char {
    if d == 0 {
        '0'
    } else if d == 1 {
        '1'
    } else if d == 2 {
        '2'
    } else if d == 3 {
        '3'
    } else if d == 4 {
        '4'
    } else if d == 5 {
        '5'
    } else if d == 6 {
        '6'
    } else if d == 7 {
        '7'
    } else if d == 8 {
        '8'
    } else if d == 9 {
        '9'
    } else if d == 10 {
        'A'
    } else if d == 11 {
        'B'
    } else if d == 12 {
        'C'
    } else if d == 13 {
        'D'
    } else if d == 14 {
        'E'
    } else {
        'F'
    }
}

/// The upper-case hexadecimal digits of `n`, most significant first, with no
/// leading zeros (a single `0` for zero itself).
pub open spec fn hex_digits(n: int) -> Seq<char>
    decreases n,
{
    if n < 16 {
        seq![hex_digit(n)]
    } else {
        hex_digits(n / 16) + seq![hex_digit(n % 16)]
    }
}

/// A `#`-prefixed upper-case hexadecimal rendering of a packed color.
pub open spec fn spec_hex_color(n: u32) -> Seq<char> {
    seq!['#'] + hex_digits(n as int)
}

fn hex_digit_str(d: u32) -> (s: &'static str)
    requires
        d < 16,
    ensures
        s@ == seq![hex_digit(d as int)],
{
    let s: &'static str = match d {
        0 => "0",
        1 => "1",
        2 => "2",
        3 => "3",
        4 => "4",
        5 => "5",
        6 => "6",
        7 => "7",
        8 => "8",
        9 => "9",
        10 => "A",
        11 => "B",
        12 => "C",
        13 => "D",
        14 => "E",
        _ => "F",
    };
    proof {
        reveal_strlit("0");
        reveal_strlit("1");
        reveal_strlit("2");
        reveal_strlit("3");
        reveal_strlit("4");
        reveal_strlit("5");
        reveal_strlit("6");
        reveal_strlit("7");
        reveal_strlit("8");
        reveal_strlit("9");
        reveal_strlit("A");
        reveal_strlit("B");
        reveal_strlit("C");
        reveal_strlit("D");
        reveal_strlit("E");
        reveal_strlit("F");
        assert(s@ =~= seq![hex_digit(d as int)]);
    }
    s
}

fn hex_push(n: u32, out: &mut String)
    ensures
        final(out)@ == old(out)@ + hex_digits(n as int),
    decreases n,
{
    if n < 16 {
        out.append(hex_digit_str(n));
    } else {
        hex_push(n / 16, out);
        out.append(hex_digit_str(n % 16));
        proof {
            assert(out@ =~= old(out)@ + hex_digits(n as int));
        }
    }
}

/// Renders a packed color as `#` followed by its upper-case hexadecimal
/// digits, the textual form the hex accessors report.
pub fn hex_color_string(n: u32) -> (s: String)
    ensures
        s@ == spec_hex_color(n),
{
    let mut s = String::new();
    s.append("#");
    proof {
        reveal_strlit("#");
        assert(s@ =~= seq!['#']);
    }
    hex_push(n, &mut s);
    s
}

/// What every format handler offers: decoding raw container bytes into the
/// canonical pixel buffer it owns, encoding that buffer back into container
/// bytes, and the uniform pixel queries over it.
pub trait ImageHandler: Sized {
    type Err: HandlerError;

    /// The canonical pixel buffer this handler owns.
    spec fn pixels(&self) -> Seq<ColorRGBA>;

    /// The image width in pixels.
    spec fn spec_width(&self) -> u32;

    /// The image height in pixels.
    spec fn spec_height(&self) -> u32;

    /// The buffer holds exactly `width * height` pixels (and whatever else
    /// the format bounds, such as its dimension limits).
    spec fn wf(&self) -> bool;

    /// The constant MIME type of the container format.
    spec fn spec_mime() -> Seq<char>;

    /// What this handler guarantees of a successful encode result.
    spec fn encode_ok(&self, bytes: Seq<u8>) -> bool;

    /// Everything `create` guarantees of its result for the given input
    /// bytes: which handler comes back on success, and which error on
    /// failure, with nothing swallowed or remapped.
    spec fn create_ens(data: Seq<u8>, r: Result<Self, Error<Self::Err>>) -> bool;

    /// Everything `encode` guarantees of its result: the successful bytes,
    /// and the shape of the error on failure, with nothing swallowed or
    /// remapped.
    spec fn encode_ens(&self, r: Result<Vec<u8>, Error<Self::Err>>) -> bool;

    /// Decodes raw container bytes, normalizing the source color encoding
    /// into the canonical buffer.
    fn create(data: Vec<u8>) -> (r: Result<Self, Error<Self::Err>>)
        ensures
            r matches Ok(h) ==> h.wf(),
            Self::create_ens(data@, r),
    ;

    /// A handler over an empty zero-by-zero buffer; always succeeds.
    fn empty() -> (r: Result<Self, Error<Self::Err>>)
        ensures
            r is Ok,
            r matches Ok(h) ==> h.wf() && h.pixels() =~= Seq::<ColorRGBA>::empty()
                && h.spec_width() == 0 && h.spec_height() == 0,
    ;

    /// The constant MIME type of the container format.
    fn get_mime() -> (m: &'static str)
        ensures
            m@ == Self::spec_mime(),
    ;

    /// Whether the handler is well-formed, decided at run time, so that
    /// unverified callers can test it before asking for an encode.
    fn check_wf(&self) -> (b: bool)
        ensures
            b == self.wf(),
    ;

    /// Serializes the canonical buffer as container bytes, always as full
    /// RGBA regardless of the original source encoding.
    fn encode(&self) -> (r: Result<Vec<u8>, Error<Self::Err>>)
        requires
            self.wf(),
        ensures
            self.encode_ens(r),
            r matches Ok(v) ==> self.encode_ok(v@),
    ;

    fn width(&self) -> (w: u32)
        ensures
            w == self.spec_width(),
    ;

    fn height(&self) -> (h: u32)
        ensures
            h == self.spec_height(),
    ;

    /// The row-major buffer index of a coordinate, absent when out of range
    /// (see [`spec_pixel_index`] for the exact range rule).
    fn get_pixel_index(&self, x: u32, y: u32) -> (r: Option<usize>)
        ensures
            r == spec_pixel_index(self.spec_width(), self.spec_height(), x, y),
    ;

    /// The packed big-endian RGBA color at a buffer index, absent when the
    /// index is out of range.
    fn get_pixel_color_by_index(&self, index: usize) -> (r: Option<u32>)
        ensures
            r == spec_pixel_color_by_index(self.pixels(), index as int),
    ;

    /// The color at a buffer index as a `#`-prefixed upper-case hex string.
    fn get_pixel_hex_color_by_index(&self, index: usize) -> (r: Option<String>)
        ensures
            r is Some <==> index < self.pixels().len(),
            r matches Some(s) ==> index < self.pixels().len() && s@ == spec_hex_color(
                self.pixels()[index as int].spec_to_int(),
            ),
    {
        match self.get_pixel_color_by_index(index) {
            Some(c) => Some(hex_color_string(c)),
            None => None,
        }
    }

    /// The packed color at a coordinate: the index lookup followed by the
    /// indexed lookup.
    fn get_pixel_color(&self, x: u32, y: u32) -> (r: Option<u32>)
        ensures
            r == spec_pixel_color(self.pixels(), self.spec_width(), self.spec_height(), x, y),
    {
        match self.get_pixel_index(x, y) {
            Some(i) => self.get_pixel_color_by_index(i),
            None => None,
        }
    }

    /// The color at a coordinate as a `#`-prefixed upper-case hex string.
    fn get_pixel_hex_color(&self, x: u32, y: u32) -> (r: Option<String>)
        ensures
            r is Some <==> spec_pixel_color(
                self.pixels(),
                self.spec_width(),
                self.spec_height(),
                x,
                y,
            ) is Some,
            r matches Some(s) ==> spec_pixel_color(
                self.pixels(),
                self.spec_width(),
                self.spec_height(),
                x,
                y,
            ) matches Some(c) && s@ == spec_hex_color(c),
    {
        match self.get_pixel_color(x, y) {
            Some(c) => Some(hex_color_string(c)),
            None => None,
        }
    }

    /// Hands out the bitmap view: the buffer moves into the view for the
    /// duration of the access and is handed back by whoever took it (the
    /// plugin entry points do so); the handler keeps its dimensions.
    fn bitmap(&mut self) -> (b: Bitmap)
        ensures
            b.width == old(self).spec_width(),
            b.height == old(self).spec_height(),
            b.data@ == old(self).pixels(),
            old(self).wf() ==> b.wf(),
            final(self).pixels() =~= Seq::<ColorRGBA>::empty(),
            final(self).spec_width() == old(self).spec_width(),
            final(self).spec_height() == old(self).spec_height(),
    ;
}

} // verus!
