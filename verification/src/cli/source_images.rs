//! The source images of a codec iteration: PNG and PPM files decoded to
//! packed RGB (PNG through the png crate, PPM through zenpnm), and the PPM
//! form in which decoded PNGs are cached.
use vstd::prelude::*;
use crate::encoders::pixels::{gray_to_rgb, is_rgb_of_rgba, rgba_to_rgb};

verus! {

/// A source image: its file name and its pixels as packed RGB, three bytes
/// per pixel, row by row.
pub struct SourceImage {
    pub name: String,
    pub width: usize,
    pub height: usize,
    pub pixels: Vec<u8>,
}

impl SourceImage {
    /// The pixels fill the image exactly.
    pub open spec fn wf(&self) -> bool {
        self.pixels@.len() == self.width * self.height * 3
    }
}

/// Why a source image could not be decoded or encoded.
pub enum SourceError {
    /// The PNG header could not be read: png's message.
    PngHeader(String),
    /// The decoded PNG frame would not fit in memory.
    PngBufferSize,
    /// The PNG frame could not be decoded: png's message.
    PngFrame(String),
    /// The PNG's colour type is none of RGB, RGBA and gray: the image's name
    /// and png's code of the colour type.
    UnsupportedColorType { name: String, color_type: u8 },
    /// The decoded PNG frame holds fewer bytes than its pixels need at one
    /// byte per sample (a gray image of fewer than eight bits per sample).
    ShortFrame { name: String },
    /// The PPM file could not be decoded as RGB: the image's name and
    /// zenpnm's message.
    PpmDecode { name: String, message: String },
    /// zenpnm could not encode the PPM: its message.
    PpmEncode(String),
}

/// How decoding a PNG failed, as the png crate reports it.
pub enum PngFailure {
    Header(String),
    BufferSize,
    Frame(String),
}

/// What a PNG failure holds.
pub enum PngFailureView {
    Header(Seq<char>),
    BufferSize,
    Frame(Seq<char>),
}

impl View for PngFailure {
    type V = PngFailureView;

    open spec fn view(&self) -> PngFailureView {
        match self {
            PngFailure::Header(m) => PngFailureView::Header(m@),
            PngFailure::BufferSize => PngFailureView::BufferSize,
            PngFailure::Frame(m) => PngFailureView::Frame(m@),
        }
    }
}

/// What the png crate gives for the bytes of a PNG file: the first frame
/// with the default transformations, the width, the height and the code of
/// the header's colour type; or the failure.
pub uninterp spec fn png_decoded(data: Seq<u8>) -> Result<(Seq<u8>, u32, u32, u8), PngFailureView>;

/// What zenpnm's `decode_img` gives for the bytes of a PNM file decoded as
/// 8-bit RGB: the packed pixels, the width and the height; or the text of
/// its error.
pub uninterp spec fn zenpnm_decoded(data: Seq<u8>) -> Result<(Seq<u8>, usize, usize), Seq<char>>;

/// What zenpnm's `encode_ppm_img` gives for packed RGB pixels of a width and
/// a height: the PPM file's bytes, or the text of its error.
pub uninterp spec fn zenpnm_ppm_encoded(pixels: Seq<u8>, width: usize, height: usize) -> Result<Seq<u8>, Seq<char>>;

/// Calls the png crate's `Decoder::new(..).read_info()`, then
/// `output_buffer_size` and `next_frame` into a buffer of that size, and
/// hands out the frame with the header's width, height and colour-type
/// code; the result is named by `png_decoded`, a function of the bytes
/// alone.
#[verifier::external_body]
fn png_decode(data: &[u8]) -> (r: Result<(Vec<u8>, u32, u32, u8), PngFailure>)
    ensures
        match r {
            Ok((b, w, h, c)) => png_decoded(data@) == Ok::<(Seq<u8>, u32, u32, u8), PngFailureView>((b@, w, h, c)),
            Err(f) => png_decoded(data@) == Err::<(Seq<u8>, u32, u32, u8), PngFailureView>(f@),
        },
{
    let decoder = png::Decoder::new(std::io::Cursor::new(data));
    let mut reader = decoder.read_info().map_err(|e| PngFailure::Header(e.to_string()))?;
    let (w, h, c) = (reader.info().width, reader.info().height, reader.info().color_type as u8);
    let mut buf = vec![0u8; reader.output_buffer_size().ok_or(PngFailure::BufferSize)?];
    reader.next_frame(&mut buf).map_err(|e| PngFailure::Frame(e.to_string()))?;
    Ok((buf, w, h, c))
}

/// Calls zenpnm's `decode_img` for 8-bit RGB pixels and hands them out
/// packed, with the width and height; the result is named by
/// `zenpnm_decoded`, a function of the bytes alone. The image's pixel
/// iterator yields width times height pixels, so the packed pixels hold
/// three bytes for each.
#[verifier::external_body]
fn zenpnm_decode(data: &[u8]) -> (r: Result<(Vec<u8>, usize, usize), String>)
    ensures
        match r {
            Ok((b, w, h)) => zenpnm_decoded(data@) == Ok::<(Seq<u8>, usize, usize), Seq<char>>((b@, w, h))
                && b@.len() == w * h * 3,
            Err(m) => zenpnm_decoded(data@) == Err::<(Seq<u8>, usize, usize), Seq<char>>(m@),
        },
{
    let img: imgref::ImgVec<rgb::RGB<u8>> = zenpnm::decode_img(data, zenpnm::Unstoppable).map_err(|e| e.to_string())?;
    let bytes: Vec<u8> = img.pixels().flat_map(|p| [p.r, p.g, p.b]).collect();
    Ok((bytes, img.width(), img.height()))
}

/// Calls zenpnm's `encode_ppm_img` on the packed RGB pixels taken as an
/// image of the given width and height; the result is named by
/// `zenpnm_ppm_encoded`. The image is built with imgref's `ImgVec::new`,
/// which panics on a zero width or a side beyond `u32::MAX`: those are left
/// out.
#[verifier::external_body]
fn zenpnm_encode_ppm(pixels: &[u8], width: usize, height: usize) -> (r: Result<Vec<u8>, String>)
    requires
        pixels@.len() == width * height * 3,
        0 < width <= u32::MAX,
        height <= u32::MAX,
    ensures
        match r {
            Ok(b) => zenpnm_ppm_encoded(pixels@, width, height) == Ok::<Seq<u8>, Seq<char>>(b@),
            Err(m) => zenpnm_ppm_encoded(pixels@, width, height) == Err::<Seq<u8>, Seq<char>>(m@),
        },
{
    let px: Vec<rgb::RGB<u8>> = pixels.chunks_exact(3).map(|c| rgb::RGB::new(c[0], c[1], c[2])).collect();
    let img = imgref::ImgVec::new(px, width, height);
    zenpnm::encode_ppm_img(img.as_ref(), zenpnm::Unstoppable).map_err(|e| e.to_string())
}

/// png's code of a colour type that converts to RGB: gray (0), RGB (2) or
/// RGBA (6).
pub open spec fn png_color_supported(color_type: u8) -> bool {
    color_type == 0 || color_type == 2 || color_type == 6
}

/// Bytes per pixel of a supported PNG colour type at one byte per sample.
pub open spec fn png_bytes_per_pixel(color_type: u8) -> int {
    if color_type == 0 {
        1
    } else if color_type == 2 {
        3
    } else {
        4
    }
}

/// Whether `rgb` is the RGB form of the first `n` pixels of a decoded PNG
/// frame: RGB as it is, RGBA without alpha, gray repeated in every channel.
pub open spec fn is_rgb_of_png_frame(frame: Seq<u8>, n: int, color_type: u8, rgb: Seq<u8>) -> bool {
    if color_type == 2 {
        rgb == frame.take(3 * n)
    } else if color_type == 6 {
        is_rgb_of_rgba(frame.take(4 * n), rgb)
    } else {
        &&& rgb.len() == 3 * n
        &&& forall|k: int, c: int| 0 <= k < n && 0 <= c < 3 ==> #[trigger] rgb[3 * k + c] == frame[k]
    }
}

/// What a decoded PNG frame becomes as the source image `name`: the image,
/// for a supported colour type and a frame that holds all its pixels; else
/// the error for an unsupported colour type, or for a short frame.
pub open spec fn png_frame_outcome(
    frame: Seq<u8>,
    width: u32,
    height: u32,
    color_type: u8,
    name: Seq<char>,
    r: Result<SourceImage, SourceError>,
) -> bool {
    let n = width * height;
    if !png_color_supported(color_type) {
        r matches Err(SourceError::UnsupportedColorType { name: m, color_type: t }) && m@ == name && t == color_type
    } else if frame.len() < n * png_bytes_per_pixel(color_type) {
        r matches Err(SourceError::ShortFrame { name: m }) && m@ == name
    } else {
        r matches Ok(img) && img.name@ == name && img.width == width && img.height == height && img.wf()
            && is_rgb_of_png_frame(frame, n, color_type, img.pixels@)
    }
}

/// The error of a PNG that png could not decode.
pub open spec fn png_failure_outcome(f: PngFailureView, r: Result<SourceImage, SourceError>) -> bool {
    match f {
        PngFailureView::Header(m) => r matches Err(SourceError::PngHeader(e)) && e@ == m,
        PngFailureView::BufferSize => r matches Err(SourceError::PngBufferSize),
        PngFailureView::Frame(m) => r matches Err(SourceError::PngFrame(e)) && e@ == m,
    }
}

/// The source image `name` from a decoded PNG frame of the given width,
/// height and colour-type code.
pub fn png_frame_to_source(frame: Vec<u8>, width: u32, height: u32, color_type: u8, name: &str) -> (r: Result<
    SourceImage,
    SourceError,
>)
    ensures
        png_frame_outcome(frame@, width, height, color_type, name@, r),
{
    if color_type != 0 && color_type != 2 && color_type != 6 {
        return Err(SourceError::UnsupportedColorType { name: String::from_str(name), color_type });
    }
    let bpp: usize = if color_type == 0 {
        1
    } else if color_type == 2 {
        3
    } else {
        4
    };
    let w: usize = width as usize;
    let h: usize = height as usize;
    let frame_len: usize = frame.len();
    let need = match w.checked_mul(h) {
        Some(n) => n.checked_mul(bpp),
        None => None,
    };
    let k: usize = match need {
        Some(k) => k,
        None => {
            proof {
                assert(bpp == png_bytes_per_pixel(color_type));
                assert(frame@.len() == frame_len);
                if w * h <= usize::MAX {
                    assert(w * h * bpp > usize::MAX);
                } else {
                    assert(w * h * bpp >= w * h) by (nonlinear_arith)
                        requires
                            bpp >= 1,
                    ;
                }
            }
            return Err(SourceError::ShortFrame { name: String::from_str(name) });
        },
    };
    if k > frame_len {
        return Err(SourceError::ShortFrame { name: String::from_str(name) });
    }
    let ghost n: int = width * height;
    let used = vstd::slice::slice_subrange(frame.as_slice(), 0, k);
    assert(used@ == frame@.take(k as int));
    let pixels = if color_type == 2 {
        vstd::slice::slice_to_vec(used)
    } else if color_type == 6 {
        let p = rgba_to_rgb(used);
        assert(k as int / 4 == n);
        p
    } else {
        let p = gray_to_rgb(used);
        assert(p@.len() == 3 * n);
        p
    };
    let img = SourceImage { name: String::from_str(name), width: w, height: h, pixels };
    assert(img.wf());
    Ok(img)
}

/// Decode the bytes of the PNG file `name` to a source image: png's frame
/// in RGB, RGBA or gray, converted to RGB (see `png_frame_to_source`); or
/// png's failure.
pub fn decode_png_source(data: &[u8], name: &str) -> (r: Result<SourceImage, SourceError>)
    ensures
        match png_decoded(data@) {
            Ok((frame, w, h, c)) => png_frame_outcome(frame, w, h, c, name@, r),
            Err(f) => png_failure_outcome(f, r),
        },
{
    match png_decode(data) {
        Ok((frame, w, h, c)) => png_frame_to_source(frame, w, h, c, name),
        Err(PngFailure::Header(m)) => Err(SourceError::PngHeader(m)),
        Err(PngFailure::BufferSize) => Err(SourceError::PngBufferSize),
        Err(PngFailure::Frame(m)) => Err(SourceError::PngFrame(m)),
    }
}

/// Decode the bytes of the PPM file `name` to a source image: zenpnm's RGB
/// pixels as they are, or its error under the image's name.
pub fn decode_ppm_source(data: &[u8], name: &str) -> (r: Result<SourceImage, SourceError>)
    ensures
        match zenpnm_decoded(data@) {
            Ok((px, w, h)) => r matches Ok(img) && img.name@ == name@ && img.pixels@ == px && img.width == w
                && img.height == h && img.wf(),
            Err(m) => r matches Err(SourceError::PpmDecode { name: n, message: e }) && n@ == name@ && e@ == m,
        },
{
    match zenpnm_decode(data) {
        Ok((px, w, h)) => Ok(SourceImage { name: String::from_str(name), width: w, height: h, pixels: px }),
        Err(m) => Err(SourceError::PpmDecode { name: String::from_str(name), message: m }),
    }
}

/// Encode a source image as a PPM file, for the decoded-image cache.
pub fn encode_source_ppm(img: &SourceImage) -> (r: Result<Vec<u8>, SourceError>)
    requires
        img.wf(),
        0 < img.width <= u32::MAX,
        img.height <= u32::MAX,
    ensures
        match zenpnm_ppm_encoded(img.pixels@, img.width, img.height) {
            Ok(b) => r matches Ok(v) && v@ == b,
            Err(m) => r matches Err(SourceError::PpmEncode(e)) && e@ == m,
        },
{
    match zenpnm_encode_ppm(img.pixels.as_slice(), img.width, img.height) {
        Ok(b) => Ok(b),
        Err(m) => Err(SourceError::PpmEncode(m)),
    }
}

/// png's name of a colour type, by its code.
pub open spec fn spec_png_color_type_name(color_type: u8) -> Seq<char> {
    if color_type == 0 {
        "Grayscale"@
    } else if color_type == 2 {
        "Rgb"@
    } else if color_type == 3 {
        "Indexed"@
    } else if color_type == 4 {
        "GrayscaleAlpha"@
    } else if color_type == 6 {
        "Rgba"@
    } else {
        "Unknown"@
    }
}

/// The name of a PNG colour type, by png's code, for error messages.
pub fn png_color_type_name(color_type: u8) -> (r: &'static str)
    ensures
        r@ == spec_png_color_type_name(color_type),
{
    if color_type == 0 {
        "Grayscale"
    } else if color_type == 2 {
        "Rgb"
    } else if color_type == 3 {
        "Indexed"
    } else if color_type == 4 {
        "GrayscaleAlpha"
    } else if color_type == 6 {
        "Rgba"
    } else {
        "Unknown"
    }
}

} // verus!
