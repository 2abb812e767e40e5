//! Decoding the encoders' output back to packed 8-bit RGB, for the quality
//! metrics: JPEG through the `image` crate, WebP through libwebp, AVIF
//! through zenavif, each converted to RGB here.
use vstd::prelude::*;
use crate::text::{decimal, push_decimal};
use crate::encoders::pixels::{is_rgb_of_rgba, is_rgb_of_samples16, rgba_to_rgb, samples16_to_rgb8};

verus! {

/// A decoded image: packed RGB, three bytes per pixel, row by row.
pub struct RgbImage {
    pub data: Vec<u8>,
    pub width: usize,
    pub height: usize,
}

/// A decoder failure: the codec and what went wrong.
#[derive(Debug)]
pub struct DecodeError {
    pub codec: String,
    pub message: String,
}

/// The samples of a decoded AVIF image.
pub enum AvifSamples {
    /// 8-bit samples.
    Eight(Vec<u8>),
    /// 16-bit samples (10 or 12 significant bits).
    Sixteen(Vec<u16>),
    /// Samples of another type.
    Unsupported,
}

/// What the samples of a decoded AVIF image hold.
pub enum AvifSamplesView {
    Eight(Seq<u8>),
    Sixteen(Seq<u16>),
    Unsupported,
}

/// A decoded AVIF image as zenavif gives it.
pub struct AvifPixels {
    pub width: usize,
    pub height: usize,
    /// Samples per pixel.
    pub channels: usize,
    pub samples: AvifSamples,
}

/// What a decoded AVIF image holds.
pub struct AvifPixelsView {
    pub width: usize,
    pub height: usize,
    pub channels: usize,
    pub samples: AvifSamplesView,
}

impl View for AvifPixels {
    type V = AvifPixelsView;

    open spec fn view(&self) -> AvifPixelsView {
        AvifPixelsView {
            width: self.width,
            height: self.height,
            channels: self.channels,
            samples: match &self.samples {
                AvifSamples::Eight(b) => AvifSamplesView::Eight(b@),
                AvifSamples::Sixteen(s) => AvifSamplesView::Sixteen(s@),
                AvifSamples::Unsupported => AvifSamplesView::Unsupported,
            },
        }
    }
}

/// What the `image` crate gives for bytes decoded as JPEG and converted to
/// RGB8: the pixels with width and height, or the text of its error.
pub uninterp spec fn image_jpeg_decoded(data: Seq<u8>) -> Result<(Seq<u8>, u32, u32), Seq<char>>;

/// What libwebp gives for some bytes: the pixels (RGBA when the flag is
/// set, else RGB) with width and height, or nothing.
pub uninterp spec fn libwebp_decoded(data: Seq<u8>) -> Option<(Seq<u8>, u32, u32, bool)>;

/// Whether the samples fill the image exactly: `channels` samples for
/// every pixel.
pub open spec fn avif_samples_fill(p: AvifPixelsView) -> bool {
    match p.samples {
        AvifSamplesView::Eight(b) => b.len() == p.width * p.height * p.channels,
        AvifSamplesView::Sixteen(s) => s.len() == p.width * p.height * p.channels,
        AvifSamplesView::Unsupported => true,
    }
}

/// The layout of the image that zenavif decodes from some bytes: width,
/// height, samples per pixel and bits per sample (0 for samples of another
/// type); `None` when decoding fails. These follow from the bytes alone;
/// the pixel values do not (see `zenavif_decode`).
pub uninterp spec fn zenavif_layout(data: Seq<u8>) -> Option<(usize, usize, usize, u8)>;

/// Calls `zenavif::decode` and hands out the decoded pixel buffer's width,
/// height, samples per pixel and samples (8-bit, or 16-bit read in native
/// byte order). The buffer's contiguous copy holds width times height
/// pixels of `channels` samples each. Whether decoding succeeds and the
/// layout are named by `zenavif_layout`, a function of the bytes. Which
/// pixel values come out, and the text of an error, are not stated: zenavif's
/// colour conversion picks a SIMD path by the CPU it runs on, and its
/// results may differ in the last bit from one machine to another.
#[verifier::external_body]
fn zenavif_decode(data: &[u8]) -> (r: Result<AvifPixels, String>)
    ensures
        r matches Ok(p) ==> avif_samples_fill(p@),
        match r {
            Ok(p) => zenavif_layout(data@) == Some((p.width, p.height, p.channels, samples_bits(p@.samples))),
            Err(_) => zenavif_layout(data@) is None,
        },
{
    let buf = zenavif::decode(data).map_err(|e| e.to_string())?;
    let desc = buf.descriptor();
    let bytes = buf.copy_to_contiguous_bytes();
    let samples = if desc.channel_type().is_u8() {
        AvifSamples::Eight(bytes)
    } else if desc.channel_type().is_u16() {
        AvifSamples::Sixteen(bytes.chunks_exact(2).map(|b| u16::from_ne_bytes([b[0], b[1]])).collect())
    } else {
        AvifSamples::Unsupported
    };
    Ok(AvifPixels { width: buf.width() as usize, height: buf.height() as usize, channels: desc.channels(), samples })
}

/// Calls `image::load_from_memory_with_format` for JPEG and converts the
/// image to RGB8 with `to_rgb8`; the result is named by
/// `image_jpeg_decoded`, a function of the bytes alone.
#[verifier::external_body]
fn image_decode_jpeg(data: &[u8]) -> (r: Result<(Vec<u8>, u32, u32), String>)
    ensures
        match r {
            Ok((px, w, h)) => image_jpeg_decoded(data@) == Ok::<(Seq<u8>, u32, u32), Seq<char>>((px@, w, h)),
            Err(m) => image_jpeg_decoded(data@) == Err::<(Seq<u8>, u32, u32), Seq<char>>(m@),
        },
{
    let img = image::load_from_memory_with_format(data, image::ImageFormat::Jpeg).map_err(|e| e.to_string())?;
    let rgb = img.to_rgb8();
    let (w, h) = (rgb.width(), rgb.height());
    Ok((rgb.into_raw(), w, h))
}

/// Calls `webp::Decoder::decode` and hands out the pixels, width, height
/// and whether they carry alpha; the result is named by `libwebp_decoded`,
/// a function of the bytes alone.
#[verifier::external_body]
fn libwebp_decode(data: &[u8]) -> (r: Option<(Vec<u8>, u32, u32, bool)>)
    ensures
        match r {
            Some((px, w, h, a)) => libwebp_decoded(data@) == Some((px@, w, h, a)),
            None => libwebp_decoded(data@) is None,
        },
{
    let img = webp::Decoder::new(data).decode()?;
    Some((img.to_vec(), img.width(), img.height(), img.is_alpha()))
}

/// Whether AVIF pixels convert to RGB: 8- or 16-bit samples, three (RGB) or
/// four (RGBA) per pixel.
pub open spec fn avif_converts(p: AvifPixelsView) -> bool {
    (p.channels == 3 || p.channels == 4) && !(p.samples is Unsupported)
}

/// Whether `rgb` is the RGB form of AVIF pixels: 8-bit RGB as it is, 8-bit
/// RGBA without alpha, 16-bit samples scaled from 10 to 8 bits.
pub open spec fn is_avif_rgb(p: AvifPixelsView, rgb: Seq<u8>) -> bool {
    match p.samples {
        AvifSamplesView::Eight(b) => if p.channels == 3 { rgb == b } else { is_rgb_of_rgba(b, rgb) },
        AvifSamplesView::Sixteen(s) => is_rgb_of_samples16(s, p.channels as int, rgb),
        AvifSamplesView::Unsupported => false,
    }
}

/// The bits per sample of AVIF samples: 8, 16, or 0 for samples of
/// another type.
pub open spec fn samples_bits(s: AvifSamplesView) -> u8 {
    match s {
        AvifSamplesView::Eight(_) => 8,
        AvifSamplesView::Sixteen(_) => 16,
        AvifSamplesView::Unsupported => 0,
    }
}

/// A pixel layout in words: the samples per pixel and the sample type.
pub open spec fn layout_text(channels: usize, bits: u8) -> Seq<char> {
    decimal(channels as nat) + " channels of "@ + (if bits == 8 {
        "8-bit"@
    } else if bits == 16 {
        "16-bit"@
    } else {
        "other"@
    }) + " samples"@
}

/// How AVIF pixels are laid out, in words.
pub open spec fn avif_layout_text(p: AvifPixelsView) -> Seq<char> {
    layout_text(p.channels, samples_bits(p.samples))
}

/// The message of a layout that does not convert to RGB.
pub open spec fn unsupported_layout_message(channels: usize, bits: u8) -> Seq<char> {
    "Unsupported decoded format: "@ + layout_text(channels, bits)
}

/// The message of pixels that do not convert.
pub open spec fn unsupported_message(p: AvifPixelsView) -> Seq<char> {
    unsupported_layout_message(p.channels, samples_bits(p.samples))
}

/// The message of an image whose layout is not 8-bit RGB or RGBA.
pub open spec fn unexpected_layout_message(width: usize, height: usize, channels: usize, bits: u8) -> Seq<char> {
    "Unexpected AVIF decode output: expected Rgb8 or Rgba8, got "@ + decimal(width as nat) + "x"@ + decimal(
        height as nat,
    ) + " "@ + layout_text(channels, bits)
}

/// The message of pixels that are not 8-bit RGB or RGBA.
pub open spec fn unexpected_8bit_message(p: AvifPixelsView) -> Seq<char> {
    unexpected_layout_message(p.width, p.height, p.channels, samples_bits(p.samples))
}

/// Append `avif_layout_text` of the pixels to `s`.
fn push_avif_layout(s: &mut String, p: &AvifPixels)
    ensures
        final(s)@ == old(s)@ + avif_layout_text(p@),
{
    push_decimal(s, p.channels as u128);
    s.append(" channels of ");
    match &p.samples {
        AvifSamples::Eight(_) => s.append("8-bit"),
        AvifSamples::Sixteen(_) => s.append("16-bit"),
        AvifSamples::Unsupported => s.append("other"),
    }
    s.append(" samples");
    proof {
        assert(final(s)@ =~= old(s)@ + avif_layout_text(p@));
    }
}

/// The message of AVIF pixels that do not convert.
fn unsupported_error(p: &AvifPixels) -> (r: DecodeError)
    ensures
        r.codec@ == "avif"@,
        r.message@ == unsupported_message(p@),
{
    let mut message = String::from_str("Unsupported decoded format: ");
    push_avif_layout(&mut message, p);
    proof {
        assert(message@ =~= unsupported_message(p@));
    }
    DecodeError { codec: String::from_str("avif"), message }
}

/// Convert decoded AVIF pixels to RGB, or report a format that does not
/// convert.
pub fn avif_pixels_to_rgb(p: AvifPixels) -> (r: Result<RgbImage, DecodeError>)
    ensures
        match r {
            Ok(img) => avif_converts(p@) && is_avif_rgb(p@, img.data@) && img.width == p.width && img.height == p.height,
            Err(e) => !avif_converts(p@) && e.codec@ == "avif"@ && e.message@ == unsupported_message(p@),
        },
{
    let (width, height, channels) = (p.width, p.height, p.channels);
    let unsupported = match &p.samples {
        AvifSamples::Unsupported => true,
        _ => false,
    };
    if (channels != 3 && channels != 4) || unsupported {
        return Err(unsupported_error(&p));
    }
    match p.samples {
        AvifSamples::Eight(b) => {
            let data = if channels == 3 { b } else { rgba_to_rgb(b.as_slice()) };
            Ok(RgbImage { data, width, height })
        },
        AvifSamples::Sixteen(s) => Ok(RgbImage { data: samples16_to_rgb8(s.as_slice(), channels), width, height }),
        AvifSamples::Unsupported => Err(unsupported_error(&p)),
    }
}

/// Whether `r` is a decoded RGB form of some AVIF pixels that convert.
pub open spec fn is_converted_avif(img: RgbImage) -> bool {
    exists|pv: AvifPixelsView|
        #![trigger is_avif_rgb(pv, img.data@)]
        avif_converts(pv) && is_avif_rgb(pv, img.data@) && img.width == pv.width && img.height == pv.height
}

/// What decoding AVIF bytes gives, for what zenavif returned: the pixels
/// converted to RGB (see `avif_pixels_to_rgb`), or zenavif's error message
/// after "Decoding failed: ".
pub fn avif_decode_outcome(decoded: Result<AvifPixels, String>) -> (r: Result<RgbImage, DecodeError>)
    ensures
        match decoded {
            Ok(p) => match r {
                Ok(img) => avif_converts(p@) && is_avif_rgb(p@, img.data@) && img.width == p.width && img.height
                    == p.height,
                Err(e) => !avif_converts(p@) && e.codec@ == "avif"@ && e.message@ == unsupported_message(p@),
            },
            Err(m) => r matches Err(e) && e.codec@ == "avif"@ && e.message@ == "Decoding failed: "@ + m@,
        },
{
    match decoded {
        Ok(p) => avif_pixels_to_rgb(p),
        Err(m) => {
            let mut message = String::from_str("Decoding failed: ");
            message.append(m.as_str());
            Err(DecodeError { codec: String::from_str("avif"), message })
        },
    }
}

/// Decode AVIF bytes to RGB: the bytes go to zenavif as they are, and its
/// result is converted by `avif_decode_outcome`. Whatever zenavif returns,
/// an image is the RGB form of pixels that convert, and an error is
/// zenavif's own or that of pixels that do not convert.
pub fn decode_avif(data: &[u8]) -> (r: Result<RgbImage, DecodeError>)
    ensures
        match r {
            Ok(img) => is_converted_avif(img),
            Err(e) => e.codec@ == "avif"@,
        },
        match zenavif_layout(data@) {
            None => r matches Err(e) && exists|m: Seq<char>| e.message@ == "Decoding failed: "@ + m,
            Some((w, h, c, k)) => if (c == 3 || c == 4) && (k == 8 || k == 16) {
                r matches Ok(img) && img.width == w && img.height == h
            } else {
                r matches Err(e) && e.message@ == unsupported_layout_message(c, k)
            },
        },
{
    let decoded = zenavif_decode(data);
    let ghost d = decoded;
    let r = avif_decode_outcome(decoded);
    let ghost rr = r;
    proof {
        match rr {
            Ok(img) => {
                let pv = d.unwrap()@;
                assert(is_avif_rgb(pv, img.data@));
            },
            Err(e) => {
                match d {
                    Ok(p) => {
                        let pv = p@;
                        assert(!avif_converts(pv) && e.message@ == unsupported_message(pv));
                    },
                    Err(m) => {
                        assert(e.message@ == "Decoding failed: "@ + m@);
                    },
                }
            },
        }
    }
    r
}

/// Whether AVIF pixels are 8-bit RGB or RGBA.
pub open spec fn avif_is_8bit_rgb(p: AvifPixelsView) -> bool {
    (p.channels == 3 || p.channels == 4) && p.samples is Eight
}

/// What the iteration tool's AVIF decoding gives, for what zenavif
/// returned: 8-bit RGB or RGBA pixels converted to RGB; other pixels
/// refused with their size and layout; or zenavif's error message after
/// "AVIF decode: ".
pub fn avif_8bit_outcome(decoded: Result<AvifPixels, String>) -> (r: Result<RgbImage, DecodeError>)
    ensures
        match decoded {
            Ok(p) => match r {
                Ok(img) => avif_is_8bit_rgb(p@) && is_avif_rgb(p@, img.data@) && img.width == p.width && img.height
                    == p.height,
                Err(e) => !avif_is_8bit_rgb(p@) && e.codec@ == "avif"@ && e.message@ == unexpected_8bit_message(p@),
            },
            Err(m) => r matches Err(e) && e.codec@ == "avif"@ && e.message@ == "AVIF decode: "@ + m@,
        },
{
    match decoded {
        Ok(p) => {
            let eight = match &p.samples {
                AvifSamples::Eight(_) => true,
                _ => false,
            };
            if eight && (p.channels == 3 || p.channels == 4) {
                avif_pixels_to_rgb(p)
            } else {
                let mut message = String::from_str("Unexpected AVIF decode output: expected Rgb8 or Rgba8, got ");
                push_decimal(&mut message, p.width as u128);
                message.append("x");
                push_decimal(&mut message, p.height as u128);
                message.append(" ");
                push_avif_layout(&mut message, &p);
                proof {
                    assert(message@ =~= unexpected_8bit_message(p@));
                }
                Err(DecodeError { codec: String::from_str("avif"), message })
            }
        },
        Err(m) => {
            let mut message = String::from_str("AVIF decode: ");
            message.append(m.as_str());
            Err(DecodeError { codec: String::from_str("avif"), message })
        },
    }
}

/// Decode AVIF bytes to RGB, accepting only 8-bit RGB or RGBA pixels (as
/// the iteration tool does): the bytes go to zenavif as they are, and its
/// result is converted by `avif_8bit_outcome`. Whatever zenavif returns,
/// an image is the RGB form of 8-bit RGB or RGBA pixels, and an error is
/// zenavif's own or that of pixels of another kind.
pub fn decode_avif_8bit(data: &[u8]) -> (r: Result<RgbImage, DecodeError>)
    ensures
        match r {
            Ok(img) => exists|pv: AvifPixelsView|
                #![trigger is_avif_rgb(pv, img.data@)]
                avif_is_8bit_rgb(pv) && is_avif_rgb(pv, img.data@) && img.width == pv.width && img.height == pv.height,
            Err(e) => e.codec@ == "avif"@,
        },
        match zenavif_layout(data@) {
            None => r matches Err(e) && exists|m: Seq<char>| e.message@ == "AVIF decode: "@ + m,
            Some((w, h, c, k)) => if (c == 3 || c == 4) && k == 8 {
                r matches Ok(img) && img.width == w && img.height == h
            } else {
                r matches Err(e) && e.message@ == unexpected_layout_message(w, h, c, k)
            },
        },
{
    let decoded = zenavif_decode(data);
    let ghost d = decoded;
    let r = avif_8bit_outcome(decoded);
    let ghost rr = r;
    proof {
        match rr {
            Ok(img) => {
                let pv = d.unwrap()@;
                assert(is_avif_rgb(pv, img.data@));
            },
            Err(e) => {
                match d {
                    Ok(p) => {
                        let pv = p@;
                        assert(!avif_is_8bit_rgb(pv) && e.message@ == unexpected_8bit_message(pv));
                    },
                    Err(m) => {
                        assert(e.message@ == "AVIF decode: "@ + m@);
                    },
                }
            },
        }
    }
    r
}

/// Decode JPEG bytes to RGB with the standard decoder; a failure is
/// reported under `codec`.
pub fn decode_jpeg(data: &[u8], codec: &str) -> (r: Result<RgbImage, DecodeError>)
    ensures
        match image_jpeg_decoded(data@) {
            Ok((px, w, h)) => r matches Ok(img) && img.data@ == px && img.width == w && img.height == h,
            Err(m) => r matches Err(e) && e.codec@ == codec@ && e.message@ == "Failed to decode JPEG: "@ + m,
        },
{
    match image_decode_jpeg(data) {
        Ok((px, w, h)) => Ok(RgbImage { data: px, width: w as usize, height: h as usize }),
        Err(m) => {
            let mut message = String::from_str("Failed to decode JPEG: ");
            message.append(m.as_str());
            Err(DecodeError { codec: String::from_str(codec), message })
        },
    }
}

/// Decode WebP bytes to RGB: libwebp's pixels, without alpha when they
/// carry it.
pub fn decode_webp(data: &[u8]) -> (r: Result<RgbImage, DecodeError>)
    ensures
        match libwebp_decoded(data@) {
            Some((px, w, h, alpha)) => r matches Ok(img) && img.width == w && img.height == h
                && (if alpha { is_rgb_of_rgba(px, img.data@) } else { img.data@ == px }),
            None => r matches Err(e) && e.codec@ == "webp"@ && e.message@ == "Failed to decode WebP"@,
        },
{
    match libwebp_decode(data) {
        Some((px, w, h, alpha)) => {
            let pixels = if alpha { rgba_to_rgb(px.as_slice()) } else { px };
            Ok(RgbImage { data: pixels, width: w as usize, height: h as usize })
        },
        None => Err(DecodeError { codec: String::from_str("webp"), message: String::from_str("Failed to decode WebP") }),
    }
}

} // verus!
