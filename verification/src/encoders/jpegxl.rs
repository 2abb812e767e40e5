//! JPEG XL encoder (libjxl).
use vstd::prelude::*;
use crate::encoders::{package_version, spec_package_version};

verus! {

/// The libjxl effort levels, from slowest to fastest.
#[derive(Debug, Clone, Copy, PartialEq, Eq, Structural)]
pub enum JxlEffort {
    Tortoise,
    Kitten,
    Wombat,
    Squirrel,
    Cheetah,
    Lightning,
}

/// The effort level for an encoder speed (0 = slowest, 9 = fastest).
pub open spec fn spec_effort_for_speed(speed: u8) -> JxlEffort {
    if speed == 0 {
        JxlEffort::Tortoise
    } else if speed <= 2 {
        JxlEffort::Kitten
    } else if speed <= 4 {
        JxlEffort::Wombat
    } else if speed <= 7 {
        JxlEffort::Squirrel
    } else if speed == 8 {
        JxlEffort::Cheetah
    } else {
        JxlEffort::Lightning
    }
}

/// Map an encoder speed to the libjxl effort level it is encoded with.
pub fn effort_for_speed(speed: u8) -> (r: JxlEffort)
    ensures
        r == spec_effort_for_speed(speed),
{
    match speed {
        0 => JxlEffort::Tortoise,
        1 | 2 => JxlEffort::Kitten,
        3 | 4 => JxlEffort::Wombat,
        5 | 6 | 7 => JxlEffort::Squirrel,
        8 => JxlEffort::Cheetah,
        _ => JxlEffort::Lightning,
    }
}

/// What a JPEG XL codec description holds.
pub struct JpegxlCodecView {
    pub version: Seq<char>,
    pub speed: u8,
}

/// The JPEG XL codec.
pub struct JpegxlCodec {
    version: String,
    /// Encoder speed (0-9, higher = faster but lower quality)
    speed: u8,
}

impl View for JpegxlCodec {
    type V = JpegxlCodecView;

    closed spec fn view(&self) -> JpegxlCodecView {
        JpegxlCodecView { version: self.version@, speed: self.speed }
    }
}

impl JpegxlCodec {
    /// The codec at the default speed 7 (Squirrel).
    pub fn new() -> (r: Self)
        ensures
            r@ == (JpegxlCodecView { version: spec_package_version(), speed: 7 }),
    {
        JpegxlCodec { version: String::from_str(package_version()), speed: 7 }
    }

    /// Set encoder speed (0 = slowest/best, 9 = fastest/worst); larger values
    /// become 9.
    pub fn with_speed(self, speed: u8) -> (r: Self)
        ensures
            r@ == (JpegxlCodecView { speed: if speed > 9 { 9 } else { speed }, ..self@ }),
    {
        let s = if speed > 9 { 9 } else { speed };
        JpegxlCodec { speed: s, ..self }
    }

    /// The codec identifier: "jpegxl".
    pub fn id(&self) -> (r: &'static str)
        ensures
            r@ == "jpegxl"@,
    {
        "jpegxl"
    }

    /// The version string.
    pub fn version(&self) -> (r: &str)
        ensures
            r@ == self@.version,
    {
        self.version.as_str()
    }

    /// The output file extension: "jxl".
    pub fn format(&self) -> (r: &'static str)
        ensures
            r@ == "jxl"@,
    {
        "jxl"
    }

    /// The encoder speed.
    pub fn speed(&self) -> (r: u8)
        ensures
            r == self@.speed,
    {
        self.speed
    }
}

impl Default for JpegxlCodec {
    fn default() -> (r: Self)
        ensures
            r@ == (JpegxlCodecView { version: spec_package_version(), speed: 7 }),
    {
        Self::new()
    }
}

} // verus!
