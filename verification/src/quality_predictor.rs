//! Quality equivalence between the MozJPEG and jpegli encoders.
//!
//! At the same perceptual quality (butteraugli score):
//! mozjpeg Q90 ~ jpegli Q80, Q85 ~ Q70, Q75 ~ Q55, Q60 ~ Q35.
use vstd::prelude::*;

verus! {

/// The jpegli quality that matches a MozJPEG quality, band by band.
pub open spec fn spec_mozjpeg_to_jpegli(q: int) -> int {
    if 90 <= q <= 100 {
        q - 10
    } else if 85 <= q <= 89 {
        q - 15
    } else if 75 <= q <= 84 {
        q - 20
    } else if 60 <= q <= 74 {
        q - 25
    } else {
        25
    }
}

/// The MozJPEG quality that matches a jpegli quality, band by band.
pub open spec fn spec_jpegli_to_mozjpeg(q: int) -> int {
    if 80 <= q <= 100 {
        if q + 10 <= 100 { q + 10 } else { 100 }
    } else if 70 <= q <= 79 {
        q + 15
    } else if 55 <= q <= 69 {
        q + 20
    } else if 35 <= q <= 54 {
        q + 25
    } else {
        100
    }
}

/// Convert a MozJPEG quality to the jpegli quality of equal perceptual quality.
/// Below Q60 (and above Q100) the answer is jpegli Q25.
pub fn mozjpeg_to_jpegli_quality(moz_quality: u8) -> (r: u8)
    ensures
        r == spec_mozjpeg_to_jpegli(moz_quality as int),
{
    let q = moz_quality;
    if 90 <= q && q <= 100 {
        let v = q - 10;
        if v < 75 { 75 } else { v }
    } else if 85 <= q && q <= 89 {
        let v = q - 15;
        if v < 70 { 70 } else { v }
    } else if 75 <= q && q <= 84 {
        let v = q - 20;
        if v < 55 { 55 } else { v }
    } else if 60 <= q && q <= 74 {
        let v = q - 25;
        if v < 35 { 35 } else { v }
    } else {
        25
    }
}

/// Convert a jpegli quality to the MozJPEG quality of equal perceptual quality.
/// jpegli Q25-34 (and anything outside 35..=100) has no MozJPEG equivalent: Q100.
pub fn jpegli_to_mozjpeg_quality(jpegli_quality: u8) -> (r: u8)
    ensures
        r == spec_jpegli_to_mozjpeg(jpegli_quality as int),
{
    let q = jpegli_quality;
    if 80 <= q && q <= 100 {
        let v = q + 10;
        if v > 100 { 100 } else { v }
    } else if 70 <= q && q <= 79 {
        q + 15
    } else if 55 <= q && q <= 69 {
        q + 20
    } else if 35 <= q && q <= 54 {
        q + 25
    } else {
        100
    }
}

/// Converting a MozJPEG quality in 60..=100 to jpegli and back gives the
/// same MozJPEG quality.
pub proof fn lemma_mozjpeg_round_trip(q: u8)
    requires
        60 <= q <= 100,
    ensures
        spec_jpegli_to_mozjpeg(spec_mozjpeg_to_jpegli(q as int)) == q,
{
}

/// Converting a jpegli quality that some MozJPEG quality in 60..=100 maps to
/// (35..=49, 55..=64, 70..=74 or 80..=90) to MozJPEG and back gives the same
/// jpegli quality.
pub proof fn lemma_jpegli_round_trip(q: u8)
    requires
        (35 <= q <= 49) || (55 <= q <= 64) || (70 <= q <= 74) || (80 <= q <= 90),
    ensures
        spec_mozjpeg_to_jpegli(spec_jpegli_to_mozjpeg(q as int)) == q,
{
}

/// A higher MozJPEG quality (up to Q100) never maps to a lower jpegli quality.
pub proof fn lemma_mozjpeg_to_jpegli_monotone(a: u8, b: u8)
    requires
        a <= b <= 100,
    ensures
        spec_mozjpeg_to_jpegli(a as int) <= spec_mozjpeg_to_jpegli(b as int),
{
}

/// At equal perceptual quality jpegli needs a lower (or equal) setting than
/// MozJPEG, and every answer lies in 25..=90.
pub proof fn lemma_mozjpeg_to_jpegli_range(q: u8)
    ensures
        25 <= spec_mozjpeg_to_jpegli(q as int) <= 90,
        spec_mozjpeg_to_jpegli(q as int) <= q || q < 25,
{
}

/// Every MozJPEG quality that jpegli maps to lies in 60..=100 and is at
/// least the jpegli quality it came from (within 0..=100).
pub proof fn lemma_jpegli_to_mozjpeg_range(q: u8)
    ensures
        60 <= spec_jpegli_to_mozjpeg(q as int) <= 100,
        q <= 100 ==> q <= spec_jpegli_to_mozjpeg(q as int),
{
}

/// Every jpegli quality in 35..=100 has a MozJPEG equivalent that is 10 to
/// 25 qualities higher (capped at Q100): the mapping never falls back to
/// the "no equivalent" answer inside that range, and on 35..=54 it adds
/// exactly 25. Only qualities outside 35..=100 get the fallback Q100.
pub proof fn lemma_jpegli_to_mozjpeg_offsets(q: u8)
    ensures
        35 <= q <= 100 ==> {
            let r = spec_jpegli_to_mozjpeg(q as int);
            &&& (if q + 10 <= 100 { q + 10 } else { 100 }) <= r
            &&& r <= q + 25
            &&& r <= 100
        },
        35 <= q <= 54 ==> spec_jpegli_to_mozjpeg(q as int) == q + 25,
        !(35 <= q <= 100) ==> spec_jpegli_to_mozjpeg(q as int) == 100,
{
}

/// Every MozJPEG quality in 60..=100 has a jpegli equivalent that is 10 to
/// 25 qualities lower, and never below jpegli Q35; on 60..=74 it takes
/// exactly 25 off. Every other quality gets the fallback Q25.
pub proof fn lemma_mozjpeg_to_jpegli_offsets(q: u8)
    ensures
        60 <= q <= 100 ==> {
            let r = spec_mozjpeg_to_jpegli(q as int);
            &&& q - 25 <= r <= q - 10
            &&& 35 <= r
        },
        60 <= q <= 74 ==> spec_mozjpeg_to_jpegli(q as int) == q - 25,
        !(60 <= q <= 100) ==> spec_mozjpeg_to_jpegli(q as int) == 25,
{
}

} // verus!
