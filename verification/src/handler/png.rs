//! The PNG format handler: decodes a PNG container into the canonical
//! buffer (normalizing grayscale, indexed, RGB, grayscale+alpha and RGBA
//! sources), and encodes the buffer back as an 8-bit RGBA PNG. The
//! bitstream work is delegated to the `png` codec; everything the codec
//! reports is normalized and validated here.

use vstd::prelude::*;
use crate::bitmap::Bitmap;
use crate::color::ColorRGBA;
use crate::error::Error;
use crate::error::HandlerError;
use crate::handler::ImageHandler;
use crate::handler::gray_pixel;
use crate::handler::gray_to_pixels;
use crate::handler::rgb_to_pixels;
use crate::handler::rgba_to_pixels;
use crate::handler::rgba_bytes;
use crate::handler::spec_gray_pixels;
use crate::handler::spec_rgb_pixels;
use crate::handler::spec_rgba_pixels;
use crate::handler::spec_rgba_bytes;

verus! {

#[verifier::external_type_specification]
#[verifier::external_body]
pub struct ExPngDecodingError(png::DecodingError);

#[verifier::external_type_specification]
#[verifier::external_body]
pub struct ExPngEncodingError(png::EncodingError);

#[verifier::external_type_specification]
#[verifier::external_body]
pub struct ExPngColorType(png::ColorType);

/// A PNG-specific failure: the codec failed to decode or to encode.
#[derive(Debug)]
pub enum PNGError {
    Decoding(png::DecodingError),
    Encoding(png::EncodingError),
}

impl HandlerError for PNGError {

}

/// The source color encoding of a decoded PNG frame.
#[derive(Debug, Clone, Copy, PartialEq, Eq, Structural)]
pub enum PngColorKind {
    Grayscale,
    Rgb,
    Indexed,
    GrayscaleAlpha,
    Rgba,
}

/// What the codec reports of one decoded PNG: the animation flag, the
/// dimensions, the source color encoding, the palette if one is present,
/// and the frame's sample bytes in that encoding.
pub struct PngRaw {
    pub animated: bool,
    pub width: u32,
    pub height: u32,
    pub color: PngColorKind,
    pub palette: Option<Vec<u8>>,
    pub bytes: Vec<u8>,
}

/// Every palette index among the sample bytes has a palette entry.
pub open spec fn spec_palette_ok(bytes: Seq<u8>, palette: Seq<u8>) -> bool {
    forall|i: int| 0 <= i < bytes.len() ==> (bytes[i] as int) < palette.len()
}

/// Indexed samples normalized pixel by pixel: the looked-up palette byte
/// treated as a gray value.
pub open spec fn spec_indexed_pixels(bytes: Seq<u8>, palette: Seq<u8>) -> Seq<ColorRGBA> {
    Seq::new(bytes.len(), |i: int| gray_pixel(palette[bytes[i] as int]))
}

/// 2-channel grayscale+alpha samples normalized pixel by pixel: the first
/// channel replicated into R, G and B, the second kept as alpha.
pub open spec fn spec_gray_alpha_pixels(bytes: Seq<u8>) -> Seq<ColorRGBA> {
    Seq::new(
        bytes.len() / 2,
        |i: int| ColorRGBA(bytes[2 * i], bytes[2 * i], bytes[2 * i], bytes[2 * i + 1]),
    )
}

/// The canonical pixels a raw PNG decode normalizes to; absent when the
/// source is structurally invalid: animated, or indexed with no palette or
/// with a sample byte past the palette's end.
pub open spec fn spec_png_pixels(raw: PngRaw) -> Option<Seq<ColorRGBA>> {
    if raw.animated {
        None
    } else {
        match raw.color {
            PngColorKind::Grayscale => Some(spec_gray_pixels(raw.bytes@)),
            PngColorKind::Rgb => Some(spec_rgb_pixels(raw.bytes@)),
            PngColorKind::Indexed => match raw.palette {
                Some(p) => if spec_palette_ok(raw.bytes@, p@) {
                    Some(spec_indexed_pixels(raw.bytes@, p@))
                } else {
                    None
                },
                None => None,
            },
            PngColorKind::GrayscaleAlpha => Some(spec_gray_alpha_pixels(raw.bytes@)),
            PngColorKind::Rgba => Some(spec_rgba_pixels(raw.bytes@)),
        }
    }
}

/// Decoding a grayscale source whose sample bytes all hold the gray value
/// `g` yields a buffer whose every pixel is the canonical `(g, g, g, 255)`.
pub proof fn lemma_grayscale_decode(raw: PngRaw, g: u8, i: int)
    requires
        !raw.animated,
        raw.color is Grayscale,
        forall|j: int| 0 <= j < raw.bytes@.len() ==> raw.bytes@[j] == g,
        0 <= i < raw.bytes@.len(),
    ensures
        spec_png_pixels(raw) matches Some(px) && px.len() == raw.bytes@.len() && px[i]
            == ColorRGBA(g, g, g, 0xFF),
{
}

/// The raw decode is structurally valid: normalization succeeds and the
/// normalized pixel count matches the dimensions.
pub open spec fn png_raw_valid(raw: PngRaw) -> bool {
    spec_png_pixels(raw) matches Some(px) && px.len() == raw.width * raw.height
}

/// The handler that a structurally valid raw decode normalizes to.
pub open spec fn png_normalized(raw: PngRaw, h: PNGHandler) -> bool {
    spec_png_pixels(raw) matches Some(px) && h.data@ == px && h.width == raw.width && h.height
        == raw.height
}

/// What decoding the given container bytes with the PNG codec reports:
/// `None` when the codec fails, otherwise the raw frame. The codec is
/// deterministic, so the outcome is a function of the bytes alone.
pub uninterp spec fn png_decoded(data: Seq<u8>) -> Option<PngRaw>;

/// What a successful PNG encode of the given RGBA sample bytes and
/// dimensions returns; the codec is deterministic, so the result is a
/// function of these arguments alone.
pub uninterp spec fn png_encoded(bytes: Seq<u8>, width: u32, height: u32) -> Seq<u8>;

/// Relies on png::Decoder and png::Reader: `read_info` parses the container
/// metadata, `is_animated` reports an APNG animation control chunk,
/// `info().palette` is the PLTE chunk, and `next_frame` decodes the first
/// frame's samples row-major into the buffer sized by `output_buffer_size`.
/// An animated container is reported before any frame is decoded, so a
/// broken first frame cannot mask the animation flag. The outcome is a
/// function of the bytes alone, named `png_decoded`; nothing more is
/// assumed of it: the verified normalization judges it.
#[verifier::external_body]
fn png_decode_raw(data: Vec<u8>) -> (r: Result<PngRaw, png::DecodingError>)
    ensures
        r matches Ok(raw) ==> png_decoded(data@) == Some(raw),
        r is Err ==> png_decoded(data@) is None,
{
    let mut reader = png::Decoder::new(std::io::Cursor::new(data)).read_info()?;
    let (animated, width, height) = (reader.info().is_animated(), reader.info().width, reader.info().height);
    let palette = reader.info().palette.as_ref().map(|p| p.to_vec());
    if animated {
        return Ok(PngRaw { animated, width, height, color: PngColorKind::Rgba, palette, bytes: Vec::new() });
    }
    let size = reader.output_buffer_size().ok_or(png::DecodingError::LimitsExceeded)?;
    let mut bytes = vec![0u8; size];
    let info = reader.next_frame(&mut bytes)?;
    Ok(PngRaw { animated, width: info.width, height: info.height, color: png_color_kind(info.color_type), palette, bytes })
}

/// Relies only on the variants of png::ColorType: converts the codec's
/// color type tag into the library's, one arm per variant.
#[verifier::external_body]
fn png_color_kind(c: png::ColorType) -> (k: PngColorKind) {
    match c {
        png::ColorType::Grayscale => PngColorKind::Grayscale,
        png::ColorType::Rgb => PngColorKind::Rgb,
        png::ColorType::Indexed => PngColorKind::Indexed,
        png::ColorType::GrayscaleAlpha => PngColorKind::GrayscaleAlpha,
        png::ColorType::Rgba => PngColorKind::Rgba,
    }
}

/// Relies on png::Encoder: writes a single 8-bit RGBA image of the given
/// dimensions from the given sample bytes; the codec is deterministic, so a
/// successful result is `png_encoded` of the arguments.
#[verifier::external_body]
fn png_encode_rgba(bytes: &Vec<u8>, width: u32, height: u32) -> (r: Result<
    Vec<u8>,
    png::EncodingError,
>)
    ensures
        r matches Ok(v) ==> v@ == png_encoded(bytes@, width, height),
{
    let mut out: Vec<u8> = Vec::new();
    let mut enc = png::Encoder::new(&mut out, width, height);
    enc.set_color(png::ColorType::Rgba);
    let mut writer = enc.write_header()?;
    writer.write_image_data(bytes)?;
    writer.finish()?;
    Ok(out)
}

/// The PNG handler: the canonical pixel buffer decoded from a PNG
/// container, with its dimensions.
pub struct PNGHandler {
    pub data: Vec<ColorRGBA>,
    pub width: u32,
    pub height: u32,
}

impl PNGHandler {
    /// Normalizes the indexed samples through the palette; `None` exactly
    /// when some sample byte has no palette entry.
    fn indexed_to_pixels(bytes: &Vec<u8>, palette: &Vec<u8>) -> (r: Option<Vec<ColorRGBA>>)
        ensures
            r matches Some(v) ==> spec_palette_ok(bytes@, palette@) && v@ == spec_indexed_pixels(
                bytes@,
                palette@,
            ),
            r is None ==> !spec_palette_ok(bytes@, palette@),
    {
        let mut v: Vec<ColorRGBA> = Vec::new();
        let mut i: usize = 0;
        while i < bytes.len()
            invariant
                i <= bytes@.len(),
                v@.len() == i,
                forall|j: int| 0 <= j < i ==> (bytes@[j] as int) < palette@.len(),
                forall|j: int| 0 <= j < i ==> v@[j] == gray_pixel(palette@[bytes@[j] as int]),
            decreases bytes@.len() - i,
        {
            let b = bytes[i] as usize;
            if b >= palette.len() {
                return None;
            }
            let g = palette[b];
            v.push(ColorRGBA(g, g, g, 0xFF));
            i = i + 1;
        }
        proof {
            assert(v@ =~= spec_indexed_pixels(bytes@, palette@));
        }
        Some(v)
    }

    /// Normalizes the 2-channel grayscale+alpha samples.
    fn gray_alpha_to_pixels(bytes: &Vec<u8>) -> (v: Vec<ColorRGBA>)
        ensures
            v@ == spec_gray_alpha_pixels(bytes@),
    {
        let n = bytes.len() / 2;
        let mut v: Vec<ColorRGBA> = Vec::new();
        let mut i: usize = 0;
        while i < n
            invariant
                bytes@.len() <= usize::MAX,
                n == bytes@.len() / 2,
                i <= n,
                v@.len() == i,
                forall|j: int| 0 <= j < i ==> v@[j] == spec_gray_alpha_pixels(bytes@)[j],
            decreases n - i,
        {
            proof {
                vstd::arithmetic::div_mod::lemma_fundamental_div_mod(bytes@.len() as int, 2);
                vstd::arithmetic::div_mod::lemma_mod_division_less_than_divisor(
                    bytes@.len() as int,
                    2,
                );
                assert(2 * (i as int) + 1 < bytes@.len());
            }
            let g = bytes[2 * i];
            v.push(ColorRGBA(g, g, g, bytes[2 * i + 1]));
            i = i + 1;
        }
        proof {
            assert(v@ =~= spec_gray_alpha_pixels(bytes@));
        }
        v
    }

    /// Normalizes one decoded PNG frame into a handler over the canonical
    /// buffer. Succeeds exactly when the source is structurally valid: not
    /// animated, the palette covering every index where the encoding is
    /// indexed, and the normalized pixel count matching the dimensions.
    pub fn from_raw(raw: PngRaw) -> (r: Result<PNGHandler, Error<PNGError>>)
        ensures
            png_raw_valid(raw) ==> (r matches Ok(h) && png_normalized(raw, h) && h.wf()),
            !png_raw_valid(raw) ==> (r matches Err(e) && e is InvalidImage),
    {
        if raw.animated {
            return Err(Error::InvalidImage);
        }
        let PngRaw { animated: _, width, height, color, palette, bytes } = raw;
        let data = match color {
            PngColorKind::Grayscale => gray_to_pixels(&bytes),
            PngColorKind::Rgb => rgb_to_pixels(&bytes),
            PngColorKind::Indexed => {
                match palette {
                    Some(p) => {
                        match Self::indexed_to_pixels(&bytes, &p) {
                            Some(d) => d,
                            None => {
                                return Err(Error::InvalidImage);
                            },
                        }
                    },
                    None => {
                        return Err(Error::InvalidImage);
                    },
                }
            },
            PngColorKind::GrayscaleAlpha => Self::gray_alpha_to_pixels(&bytes),
            PngColorKind::Rgba => rgba_to_pixels(&bytes),
        };
        proof {
            let wg = width as int;
            let hg = height as int;
            assert(wg * hg < 0x10000000000000000) by (nonlinear_arith)
                requires
                    0 <= wg <= 0xffffffff,
                    0 <= hg <= 0xffffffff,
            ;
        }
        let total: u64 = (width as u64) * (height as u64);
        if (data.len() as u64) != total {
            return Err(Error::InvalidImage);
        }
        Ok(PNGHandler { data, width, height })
    }

    /// Runs one plugin invocation: hands the plugin a fresh bitmap view
    /// over the current buffer together with the options value, and installs
    /// the buffer the plugin hands back.
    pub fn plugin<F, O>(&mut self, f: F, options: O) where F: FnOnce(O, Bitmap) -> Bitmap
        requires
            forall|b: Bitmap|
                b.width == old(self).spec_width() && b.height == old(self).spec_height() && b.data@
                    == old(self).pixels() ==> #[trigger] call_requires(f, (options, b)),
        ensures
            final(self).spec_width() == old(self).spec_width(),
            final(self).spec_height() == old(self).spec_height(),
            exists|b: Bitmap, out: Bitmap|
                b.width == old(self).spec_width() && b.height == old(self).spec_height()
                    && b.data@ == old(self).pixels()
                    && #[trigger] call_ensures(f, (options, b), out)
                    && final(self).pixels() == out.data@,
    {
        let b = self.bitmap();
        let out = f(options, b);
        let Bitmap { data, width: _, height: _ } = out;
        self.data = data;
    }
}

impl ImageHandler for PNGHandler {
    type Err = PNGError;

    open spec fn pixels(&self) -> Seq<ColorRGBA> {
        self.data@
    }

    open spec fn spec_width(&self) -> u32 {
        self.width
    }

    open spec fn spec_height(&self) -> u32 {
        self.height
    }

    open spec fn wf(&self) -> bool {
        self.data@.len() == self.width * self.height
    }

    open spec fn spec_mime() -> Seq<char> {
        "image/png"@
    }

    open spec fn encode_ok(&self, bytes: Seq<u8>) -> bool {
        bytes == png_encoded(spec_rgba_bytes(self.data@), self.width, self.height)
    }

    open spec fn create_ens(data: Seq<u8>, r: Result<Self, Error<PNGError>>) -> bool {
        match png_decoded(data) {
            Some(raw) => if png_raw_valid(raw) {
                r matches Ok(h) && png_normalized(raw, h)
            } else {
                r matches Err(e) && e is InvalidImage
            },
            None => r matches Err(e) && e matches Error::Handler(pe) && pe is Decoding,
        }
    }

    open spec fn encode_ens(&self, r: Result<Vec<u8>, Error<PNGError>>) -> bool {
        match r {
            Ok(v) => self.encode_ok(v@),
            Err(e) => e matches Error::Handler(pe) && pe is Encoding,
        }
    }

    fn create(data: Vec<u8>) -> (r: Result<Self, Error<PNGError>>) {
        match png_decode_raw(data) {
            Ok(raw) => Self::from_raw(raw),
            Err(e) => Err(Error::Handler(PNGError::Decoding(e))),
        }
    }

    fn empty() -> (r: Result<Self, Error<PNGError>>) {
        Ok(PNGHandler { data: Vec::new(), width: 0, height: 0 })
    }

    fn get_mime() -> (m: &'static str) {
        "image/png"
    }

    fn check_wf(&self) -> (b: bool) {
        proof {
            let wg = self.width as int;
            let hg = self.height as int;
            assert(wg * hg < 0x10000000000000000) by (nonlinear_arith)
                requires
                    0 <= wg <= 0xffffffff,
                    0 <= hg <= 0xffffffff,
            ;
        }
        (self.data.len() as u64) == (self.width as u64) * (self.height as u64)
    }

    fn encode(&self) -> (r: Result<Vec<u8>, Error<PNGError>>) {
        let bytes = rgba_bytes(&self.data);
        match png_encode_rgba(&bytes, self.width, self.height) {
            Ok(v) => Ok(v),
            Err(e) => Err(Error::Handler(PNGError::Encoding(e))),
        }
    }

    fn width(&self) -> (w: u32) {
        self.width
    }

    fn height(&self) -> (h: u32) {
        self.height
    }

    fn get_pixel_index(&self, x: u32, y: u32) -> (r: Option<usize>) {
        let width = self.width;
        let height = self.height;
        if x >= width && y >= height {
            return None;
        }
        proof {
            let wg = width as int;
            let yg = y as int;
            let xg = x as int;
            assert(wg * yg + xg < 0x10000000000000000) by (nonlinear_arith)
                requires
                    0 <= wg <= 0xffffffff,
                    0 <= yg <= 0xffffffff,
                    0 <= xg <= 0xffffffff,
            ;
        }
        let idx64: u64 = (width as u64) * (y as u64) + (x as u64);
        if idx64 <= usize::MAX as u64 {
            Some(idx64 as usize)
        } else {
            None
        }
    }

    fn get_pixel_color_by_index(&self, index: usize) -> (r: Option<u32>) {
        if index < self.data.len() {
            Some(self.data[index].to_int())
        } else {
            None
        }
    }

    fn bitmap(&mut self) -> (b: Bitmap) {
        let mut data: Vec<ColorRGBA> = Vec::new();
        core::mem::swap(&mut self.data, &mut data);
        Bitmap { data, width: self.width, height: self.height }
    }
}

} // verus!
