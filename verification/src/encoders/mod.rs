//! Codec descriptions: identifiers, versions, output formats and the
//! settings each encoder is run with.
use vstd::prelude::*;

pub mod avif;
pub mod decode;
pub mod jpeg;
pub mod jpegxl;
pub mod pixels;
pub mod webp;
pub mod zenjpeg;

pub use jpeg::{JpegMode, JpegSubsampling};

verus! {

/// The version string reported for codecs built into this crate.
pub open spec fn spec_package_version() -> Seq<char> {
    "0.1.0"@
}

/// The version of this package, reported as the version of the codecs whose
/// library version is not known separately.
pub fn package_version() -> (r: &'static str)
    ensures
        r@ == spec_package_version(),
{
    "0.1.0"
}

/// The chart color of a codec, by its identifier.
pub open spec fn spec_codec_color(id: Seq<char>) -> Seq<char> {
    if id == "mozjpeg"@ {
        "#e74c3c"@
    } else if id == "jpegli"@ {
        "#3498db"@
    } else if id == "libjpeg-turbo"@ {
        "#95a5a6"@
    } else if id == "zenjpeg"@ {
        "#2ecc71"@
    } else if id == "webp"@ {
        "#27ae60"@
    } else if id == "avif-aom"@ {
        "#9b59b6"@
    } else if id == "avif-rav1e"@ {
        "#e67e22"@
    } else if id == "avif-svt"@ {
        "#1abc9c"@
    } else if id == "jpegxl"@ {
        "#f39c12"@
    } else {
        "#34495e"@
    }
}

/// Get a color for a codec (for charts); unknown codecs are dark gray.
pub fn codec_color(id: &str) -> (r: &'static str)
    ensures
        r@ == spec_codec_color(id@),
{
    if crate::text::str_eq(id, "mozjpeg") {
        "#e74c3c"
    } else if crate::text::str_eq(id, "jpegli") {
        "#3498db"
    } else if crate::text::str_eq(id, "libjpeg-turbo") {
        "#95a5a6"
    } else if crate::text::str_eq(id, "zenjpeg") {
        "#2ecc71"
    } else if crate::text::str_eq(id, "webp") {
        "#27ae60"
    } else if crate::text::str_eq(id, "avif-aom") {
        "#9b59b6"
    } else if crate::text::str_eq(id, "avif-rav1e") {
        "#e67e22"
    } else if crate::text::str_eq(id, "avif-svt") {
        "#1abc9c"
    } else if crate::text::str_eq(id, "jpegxl") {
        "#f39c12"
    } else {
        "#34495e"
    }
}

} // verus!
