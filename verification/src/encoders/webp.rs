//! WebP encoder (libwebp).
use vstd::prelude::*;

verus! {

/// The WebP codec.
pub struct WebPCodec {
    version: String,
}

impl View for WebPCodec {
    type V = Seq<char>;

    /// The version string.
    closed spec fn view(&self) -> Seq<char> {
        self.version@
    }
}

impl WebPCodec {
    /// The codec, reporting the libwebp version "1.4".
    pub fn new() -> (r: Self)
        ensures
            r@ == "1.4"@,
    {
        WebPCodec { version: String::from_str("1.4") }
    }

    /// The codec identifier: "webp".
    pub fn id(&self) -> (r: &'static str)
        ensures
            r@ == "webp"@,
    {
        "webp"
    }

    /// The version string.
    pub fn version(&self) -> (r: &str)
        ensures
            r@ == self@,
    {
        self.version.as_str()
    }

    /// The output file extension: "webp".
    pub fn format(&self) -> (r: &'static str)
        ensures
            r@ == "webp"@,
    {
        "webp"
    }
}

impl Default for WebPCodec {
    fn default() -> (r: Self)
        ensures
            r@ == "1.4"@,
    {
        Self::new()
    }
}

} // verus!
