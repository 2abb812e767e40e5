//! Zenjpeg: a pure Rust JPEG encoder with perceptual optimizations.
use vstd::prelude::*;

verus! {

/// The zenjpeg codec.
pub struct ZenjpegCodec {
    version: String,
}

impl View for ZenjpegCodec {
    type V = Seq<char>;

    /// The version string.
    closed spec fn view(&self) -> Seq<char> {
        self.version@
    }
}

impl ZenjpegCodec {
    /// The codec, reporting version "0.3".
    pub fn new() -> (r: Self)
        ensures
            r@ == "0.3"@,
    {
        ZenjpegCodec { version: String::from_str("0.3") }
    }

    /// Return all variants (just one for zenjpeg).
    pub fn all_variants() -> (r: Vec<Self>)
        ensures
            r@.len() == 1,
            r@[0]@ == "0.3"@,
    {
        let mut v: Vec<Self> = Vec::new();
        v.push(Self::new());
        v
    }

    /// The codec identifier: "zenjpeg".
    pub fn id(&self) -> (r: &'static str)
        ensures
            r@ == "zenjpeg"@,
    {
        "zenjpeg"
    }

    /// The version string.
    pub fn version(&self) -> (r: &str)
        ensures
            r@ == self@,
    {
        self.version.as_str()
    }

    /// The output file extension: "jpg".
    pub fn format(&self) -> (r: &'static str)
        ensures
            r@ == "jpg"@,
    {
        "jpg"
    }
}

impl Default for ZenjpegCodec {
    fn default() -> (r: Self)
        ensures
            r@ == "0.3"@,
    {
        Self::new()
    }
}

} // verus!
