//! The JPEG format handler: decodes a JPEG container into the canonical
//! buffer (normalizing 8-bit and 16-bit grayscale, RGB and CMYK sources),
//! and encodes the buffer back as an RGBA JPEG at full quality. The
//! bitstream work is delegated to the `jpeg_decoder` and `jpeg_encoder`
//! codecs; everything they report is normalized and validated here.

use vstd::prelude::*;
use vstd::arithmetic::div_mod::lemma_fundamental_div_mod;
use vstd::arithmetic::div_mod::lemma_mod_division_less_than_divisor;
use jpeg_decoder::Error as DecodingError;
use jpeg_encoder::EncodingError;
use crate::bitmap::Bitmap;
use crate::color::ColorRGBA;
use crate::error::Error;
use crate::error::HandlerError;
use crate::handler::ImageHandler;
use crate::handler::gray_pixel;
use crate::handler::gray_to_pixels;
use crate::handler::rgb_to_pixels;
use crate::handler::rgba_bytes;
use crate::handler::spec_rgba_bytes;
use crate::handler::spec_gray_pixels;
use crate::handler::spec_rgb_pixels;

verus! {

#[verifier::external_type_specification]
#[verifier::external_body]
pub struct ExJpegDecodingError(DecodingError);

#[verifier::external_type_specification]
#[verifier::external_body]
pub struct ExJpegEncodingError(EncodingError);

/// A JPEG-specific failure: the codec failed to decode or to encode.
#[derive(Debug)]
pub enum JPEGError {
    Decoding(DecodingError),
    Encoding(EncodingError),
}

impl HandlerError for JPEGError {

}

/// The source pixel format of a decoded JPEG.
#[derive(Debug, Clone, Copy, PartialEq, Eq, Structural)]
pub enum JpegPixelKind {
    L8,
    L16,
    Rgb24,
    Cmyk32,
}

/// What the codec reports of one decoded JPEG: the dimensions, the source
/// pixel format, and the sample bytes in that format.
pub struct JpegRaw {
    pub width: u16,
    pub height: u16,
    pub kind: JpegPixelKind,
    pub bytes: Vec<u8>,
}

/// A 16-bit big-endian gray sample scaled to 8 bits: `value * 255 / 65535`,
/// rounded toward zero.
pub open spec fn spec_l16_gray(hi: u8, lo: u8) -> u8 {
    (((hi * 256 + lo) * 255) / 65535) as u8
}

/// 16-bit grayscale samples normalized pixel by pixel.
pub open spec fn spec_l16_pixels(bytes: Seq<u8>) -> Seq<ColorRGBA> {
    Seq::new(bytes.len() / 2, |i: int| gray_pixel(spec_l16_gray(bytes[2 * i], bytes[2 * i + 1])))
}

/// One CMYK channel combined with black: `255 * (1 - C) * (1 - K)` over
/// channels normalized to `[0, 1]`, that is `(255 - c) * (255 - k) / 255`
/// on the raw bytes, rounded toward zero.
pub open spec fn spec_cmyk_channel(c: u8, k: u8) -> u8 {
    (((255 - c) * (255 - k)) / 255) as u8
}

/// CMYK samples normalized pixel by pixel; alpha is 255.
pub open spec fn spec_cmyk_pixels(bytes: Seq<u8>) -> Seq<ColorRGBA> {
    Seq::new(
        bytes.len() / 4,
        |i: int|
            ColorRGBA(
                spec_cmyk_channel(bytes[4 * i], bytes[4 * i + 3]),
                spec_cmyk_channel(bytes[4 * i + 1], bytes[4 * i + 3]),
                spec_cmyk_channel(bytes[4 * i + 2], bytes[4 * i + 3]),
                0xFF,
            ),
    )
}

/// The canonical pixels a raw JPEG decode normalizes to.
pub open spec fn spec_jpeg_pixels(raw: JpegRaw) -> Seq<ColorRGBA> {
    match raw.kind {
        JpegPixelKind::L8 => spec_gray_pixels(raw.bytes@),
        JpegPixelKind::L16 => spec_l16_pixels(raw.bytes@),
        JpegPixelKind::Rgb24 => spec_rgb_pixels(raw.bytes@),
        JpegPixelKind::Cmyk32 => spec_cmyk_pixels(raw.bytes@),
    }
}

/// The raw decode is structurally valid: the normalized pixel count
/// matches the dimensions.
pub open spec fn jpeg_raw_valid(raw: JpegRaw) -> bool {
    spec_jpeg_pixels(raw).len() == raw.width * raw.height
}

/// The handler that a structurally valid raw decode normalizes to.
pub open spec fn jpeg_normalized(raw: JpegRaw, h: JPEGHandler) -> bool {
    h.data@ == spec_jpeg_pixels(raw) && h.width == raw.width && h.height == raw.height
}

/// What decoding the given container bytes with the JPEG codec reports:
/// `None` when the codec fails, otherwise the raw samples. The codec is
/// deterministic, so the outcome is a function of the bytes alone.
pub uninterp spec fn jpeg_decoded(data: Seq<u8>) -> Option<JpegRaw>;

/// What a successful JPEG encode of the given RGBA sample bytes and
/// dimensions returns. The codec is deterministic — its scalar and SIMD
/// paths compute the same fixed-point transform — so the result is a
/// function of these arguments alone.
pub uninterp spec fn jpeg_encoded(bytes: Seq<u8>, width: u16, height: u16) -> Seq<u8>;

/// Relies on jpeg_decoder::Decoder: `decode` parses the container and
/// returns the sample bytes in the source pixel format; after a successful
/// decode, `info` is documented to be `Some` and carries the dimensions and
/// the pixel format. The outcome is a function of the bytes alone, named
/// `jpeg_decoded`; nothing more is assumed of it: the verified
/// normalization judges it.
#[verifier::external_body]
fn jpeg_decode_raw(data: Vec<u8>) -> (r: Result<JpegRaw, DecodingError>)
    ensures
        r matches Ok(raw) ==> jpeg_decoded(data@) == Some(raw),
        r is Err ==> jpeg_decoded(data@) is None,
{
    let mut decoder = jpeg_decoder::Decoder::new(std::io::Cursor::new(data));
    let bytes = decoder.decode()?;
    let info = decoder.info().unwrap();
    let kind = match info.pixel_format {
        jpeg_decoder::PixelFormat::L8 => JpegPixelKind::L8,
        jpeg_decoder::PixelFormat::L16 => JpegPixelKind::L16,
        jpeg_decoder::PixelFormat::RGB24 => JpegPixelKind::Rgb24,
        jpeg_decoder::PixelFormat::CMYK32 => JpegPixelKind::Cmyk32,
    };
    Ok(JpegRaw { width: info.width, height: info.height, kind, bytes })
}

/// Relies on jpeg_encoder::Encoder: encodes 4-byte-per-pixel RGBA samples
/// of the given dimensions at quality 100 into an in-memory JPEG stream
/// (the alpha channel is ignored by the codec). The output is a function
/// of the samples and dimensions alone, named `jpeg_encoded`.
#[verifier::external_body]
fn jpeg_encode_rgba(bytes: &Vec<u8>, width: u16, height: u16) -> (r: Result<
    Vec<u8>,
    EncodingError,
>)
    ensures
        r matches Ok(v) ==> v@ == jpeg_encoded(bytes@, width, height),
{
    let mut out: Vec<u8> = Vec::new();
    let encoder = jpeg_encoder::Encoder::new(&mut out, 100);
    encoder.encode(bytes, width, height, jpeg_encoder::ColorType::Rgba)?;
    Ok(out)
}

/// The JPEG handler: the canonical pixel buffer decoded from a JPEG
/// container, with its dimensions.
pub struct JPEGHandler {
    pub data: Vec<ColorRGBA>,
    pub width: u32,
    pub height: u32,
}

impl JPEGHandler {
    /// Normalizes the 16-bit big-endian grayscale samples.
    fn l16_to_pixels(bytes: &Vec<u8>) -> (v: Vec<ColorRGBA>)
        ensures
            v@ == spec_l16_pixels(bytes@),
    {
        let n = bytes.len() / 2;
        let mut v: Vec<ColorRGBA> = Vec::new();
        let mut i: usize = 0;
        while i < n
            invariant
                bytes@.len() <= usize::MAX,
                n == bytes@.len() / 2,
                i <= n,
                v@.len() == i,
                forall|j: int| 0 <= j < i ==> v@[j] == spec_l16_pixels(bytes@)[j],
            decreases n - i,
        {
            proof {
                lemma_fundamental_div_mod(bytes@.len() as int, 2);
                lemma_mod_division_less_than_divisor(bytes@.len() as int, 2);
                assert(2 * (i as int) + 1 < bytes@.len());
            }
            let gray16: u32 = (bytes[2 * i] as u32) * 256 + (bytes[2 * i + 1] as u32);
            let scaled: u32 = gray16 * 255 / 65535;
            let g = scaled as u8;
            v.push(ColorRGBA(g, g, g, 0xFF));
            i = i + 1;
        }
        proof {
            assert(v@ =~= spec_l16_pixels(bytes@));
        }
        v
    }

    /// Normalizes the 4-byte CMYK samples.
    fn cmyk_to_pixels(bytes: &Vec<u8>) -> (v: Vec<ColorRGBA>)
        ensures
            v@ == spec_cmyk_pixels(bytes@),
    {
        let n = bytes.len() / 4;
        let mut v: Vec<ColorRGBA> = Vec::new();
        let mut i: usize = 0;
        while i < n
            invariant
                bytes@.len() <= usize::MAX,
                n == bytes@.len() / 4,
                i <= n,
                v@.len() == i,
                forall|j: int| 0 <= j < i ==> v@[j] == spec_cmyk_pixels(bytes@)[j],
            decreases n - i,
        {
            proof {
                lemma_fundamental_div_mod(bytes@.len() as int, 4);
                lemma_mod_division_less_than_divisor(bytes@.len() as int, 4);
                assert(4 * (i as int) + 3 < bytes@.len());
            }
            let k = bytes[4 * i + 3];
            let r = Self::cmyk_channel(bytes[4 * i], k);
            let g = Self::cmyk_channel(bytes[4 * i + 1], k);
            let b = Self::cmyk_channel(bytes[4 * i + 2], k);
            v.push(ColorRGBA(r, g, b, 0xFF));
            i = i + 1;
        }
        proof {
            assert(v@ =~= spec_cmyk_pixels(bytes@));
        }
        v
    }

    fn cmyk_channel(c: u8, k: u8) -> (r: u8)
        ensures
            r == spec_cmyk_channel(c, k),
    {
        proof {
            let cg = c as int;
            let kg = k as int;
            assert((255 - cg) * (255 - kg) <= 65025) by (nonlinear_arith)
                requires
                    0 <= cg <= 255,
                    0 <= kg <= 255,
            ;
        }
        let prod: u32 = (255 - c as u32) * (255 - k as u32);
        (prod / 255) as u8
    }

    /// Normalizes one decoded JPEG into a handler over the canonical
    /// buffer. Succeeds exactly when the normalized pixel count matches the
    /// dimensions the codec reported.
    pub fn from_raw(raw: JpegRaw) -> (r: Result<JPEGHandler, Error<JPEGError>>)
        ensures
            jpeg_raw_valid(raw) ==> (r matches Ok(h) && jpeg_normalized(raw, h) && h.wf()),
            !jpeg_raw_valid(raw) ==> (r matches Err(e) && e is InvalidImage),
    {
        let JpegRaw { width, height, kind, bytes } = raw;
        let data = match kind {
            JpegPixelKind::L8 => gray_to_pixels(&bytes),
            JpegPixelKind::L16 => Self::l16_to_pixels(&bytes),
            JpegPixelKind::Rgb24 => rgb_to_pixels(&bytes),
            JpegPixelKind::Cmyk32 => Self::cmyk_to_pixels(&bytes),
        };
        proof {
            let wg = width as int;
            let hg = height as int;
            assert(wg * hg < 0x10000000000000000) by (nonlinear_arith)
                requires
                    0 <= wg <= 0xffff,
                    0 <= hg <= 0xffff,
            ;
        }
        let total: u64 = (width as u64) * (height as u64);
        if (data.len() as u64) != total {
            return Err(Error::InvalidImage);
        }
        Ok(JPEGHandler { data, width: width as u32, height: height as u32 })
    }

    /// Runs one plugin invocation: hands the plugin a fresh bitmap view
    /// over the current buffer together with the options value, and installs
    /// the buffer the plugin hands back.
    pub fn plugin<F, O>(&mut self, f: F, options: O) where F: FnOnce(O, Bitmap) -> Bitmap
        requires
            forall|b: Bitmap|
                b.width == old(self).spec_width() && b.height == old(self).spec_height() && b.data@
                    == old(self).pixels() ==> #[trigger] call_requires(f, (options, b)),
        ensures
            final(self).spec_width() == old(self).spec_width(),
            final(self).spec_height() == old(self).spec_height(),
            exists|b: Bitmap, out: Bitmap|
                b.width == old(self).spec_width() && b.height == old(self).spec_height()
                    && b.data@ == old(self).pixels()
                    && #[trigger] call_ensures(f, (options, b), out)
                    && final(self).pixels() == out.data@,
    {
        let b = self.bitmap();
        let out = f(options, b);
        let Bitmap { data, width: _, height: _ } = out;
        self.data = data;
    }
}

impl ImageHandler for JPEGHandler {
    type Err = JPEGError;

    open spec fn pixels(&self) -> Seq<ColorRGBA> {
        self.data@
    }

    open spec fn spec_width(&self) -> u32 {
        self.width
    }

    open spec fn spec_height(&self) -> u32 {
        self.height
    }

    open spec fn wf(&self) -> bool {
        self.data@.len() == self.width * self.height && self.width <= 0xffff && self.height
            <= 0xffff
    }

    open spec fn spec_mime() -> Seq<char> {
        "image/jpeg"@
    }

    open spec fn encode_ok(&self, bytes: Seq<u8>) -> bool {
        bytes == jpeg_encoded(
            spec_rgba_bytes(self.data@),
            self.width as u16,
            self.height as u16,
        )
    }

    open spec fn create_ens(data: Seq<u8>, r: Result<Self, Error<JPEGError>>) -> bool {
        match jpeg_decoded(data) {
            Some(raw) => if jpeg_raw_valid(raw) {
                r matches Ok(h) && jpeg_normalized(raw, h)
            } else {
                r matches Err(e) && e is InvalidImage
            },
            None => r matches Err(e) && e matches Error::Handler(je) && je is Decoding,
        }
    }

    open spec fn encode_ens(&self, r: Result<Vec<u8>, Error<JPEGError>>) -> bool {
        match r {
            Ok(v) => self.encode_ok(v@),
            Err(e) => e matches Error::Handler(je) && je is Encoding,
        }
    }

    fn create(data: Vec<u8>) -> (r: Result<Self, Error<JPEGError>>) {
        match jpeg_decode_raw(data) {
            Ok(raw) => Self::from_raw(raw),
            Err(e) => Err(Error::Handler(JPEGError::Decoding(e))),
        }
    }

    fn empty() -> (r: Result<Self, Error<JPEGError>>) {
        Ok(JPEGHandler { data: Vec::new(), width: 0, height: 0 })
    }

    fn get_mime() -> (m: &'static str) {
        "image/jpeg"
    }

    fn check_wf(&self) -> (b: bool) {
        proof {
            let wg = self.width as int;
            let hg = self.height as int;
            assert(wg * hg < 0x10000000000000000) by (nonlinear_arith)
                requires
                    0 <= wg <= 0xffffffff,
                    0 <= hg <= 0xffffffff,
            ;
        }
        (self.data.len() as u64) == (self.width as u64) * (self.height as u64) && self.width
            <= 0xFFFF && self.height <= 0xFFFF
    }

    fn encode(&self) -> (r: Result<Vec<u8>, Error<JPEGError>>) {
        let bytes = rgba_bytes(&self.data);
        match jpeg_encode_rgba(&bytes, self.width as u16, self.height as u16) {
            Ok(v) => Ok(v),
            Err(e) => Err(Error::Handler(JPEGError::Encoding(e))),
        }
    }

    fn width(&self) -> (w: u32) {
        self.width
    }

    fn height(&self) -> (h: u32) {
        self.height
    }

    fn get_pixel_index(&self, x: u32, y: u32) -> (r: Option<usize>) {
        let width = self.width;
        let height = self.height;
        if x >= width && y >= height {
            return None;
        }
        proof {
            let wg = width as int;
            let yg = y as int;
            let xg = x as int;
            assert(wg * yg + xg < 0x10000000000000000) by (nonlinear_arith)
                requires
                    0 <= wg <= 0xffffffff,
                    0 <= yg <= 0xffffffff,
                    0 <= xg <= 0xffffffff,
            ;
        }
        let idx64: u64 = (width as u64) * (y as u64) + (x as u64);
        if idx64 <= usize::MAX as u64 {
            Some(idx64 as usize)
        } else {
            None
        }
    }

    fn get_pixel_color_by_index(&self, index: usize) -> (r: Option<u32>) {
        if index < self.data.len() {
            Some(self.data[index].to_int())
        } else {
            None
        }
    }

    fn bitmap(&mut self) -> (b: Bitmap) {
        let mut data: Vec<ColorRGBA> = Vec::new();
        core::mem::swap(&mut self.data, &mut data);
        Bitmap { data, width: self.width, height: self.height }
    }
}

} // verus!
