//! Pixel layout conversions between packed RGB, RGBA, gray and 16-bit
//! samples, on flat buffers.
use vstd::prelude::*;

verus! {

/// Whether `rgb` is `rgba` with the alpha byte of every whole pixel dropped.
pub open spec fn is_rgb_of_rgba(rgba: Seq<u8>, rgb: Seq<u8>) -> bool {
    &&& rgb.len() == (rgba.len() / 4) * 3
    &&& forall|k: int, c: int| 0 <= k < rgba.len() / 4 && 0 <= c < 3 ==> #[trigger] rgb[3 * k + c] == rgba[4 * k + c]
}

/// Whether `rgb` holds, for every whole pixel of `channels` 16-bit samples,
/// its first three samples scaled from 10 to 8 bits.
pub open spec fn is_rgb_of_samples16(samples: Seq<u16>, channels: int, rgb: Seq<u8>) -> bool {
    &&& rgb.len() == (samples.len() as int / channels) * 3
    &&& forall|k: int, c: int| 0 <= k < samples.len() as int / channels && 0 <= c < 3 ==>
        #[trigger] rgb[3 * k + c] == spec_sample_10_to_8(samples[channels * k + c])
}

/// Packed RGB (three bytes per pixel) to packed RGBA with opaque alpha; a
/// trailing partial pixel is dropped.
pub fn rgb_to_rgba(rgb: &[u8]) -> (r: Vec<u8>)
    ensures
        r@.len() == (rgb@.len() / 3) * 4,
        forall|k: int, c: int| 0 <= k < rgb@.len() / 3 && 0 <= c < 3 ==> #[trigger] r@[4 * k + c] == rgb@[3 * k + c],
        forall|k: int| 0 <= k < rgb@.len() / 3 ==> #[trigger] r@[4 * k + 3] == 255,
{
    let n = rgb.len() / 3;
    let mut out: Vec<u8> = Vec::new();
    let mut k: usize = 0;
    while k < n
        invariant
            n == rgb@.len() / 3,
            k <= n,
            out@.len() == 4 * k,
            forall|j: int, c: int| 0 <= j < k && 0 <= c < 3 ==> #[trigger] out@[4 * j + c] == rgb@[3 * j + c],
            forall|j: int| 0 <= j < k ==> #[trigger] out@[4 * j + 3] == 255,
        decreases n - k,
    {
        assert(3 * k + 3 <= rgb.len()) by (nonlinear_arith)
            requires
                k < n,
                n == rgb.len() / 3,
        ;
        out.push(rgb[3 * k]);
        out.push(rgb[3 * k + 1]);
        out.push(rgb[3 * k + 2]);
        out.push(255);
        k = k + 1;
    }
    out
}

/// Packed RGBA (four bytes per pixel) to packed RGB, dropping alpha; a
/// trailing partial pixel is dropped.
pub fn rgba_to_rgb(rgba: &[u8]) -> (r: Vec<u8>)
    ensures
        r@.len() == (rgba@.len() / 4) * 3,
        forall|k: int, c: int| 0 <= k < rgba@.len() / 4 && 0 <= c < 3 ==> #[trigger] r@[3 * k + c] == rgba@[4 * k + c],
        is_rgb_of_rgba(rgba@, r@),
{
    let n = rgba.len() / 4;
    let mut out: Vec<u8> = Vec::new();
    let mut k: usize = 0;
    while k < n
        invariant
            n == rgba@.len() / 4,
            k <= n,
            out@.len() == 3 * k,
            forall|j: int, c: int| 0 <= j < k && 0 <= c < 3 ==> #[trigger] out@[3 * j + c] == rgba@[4 * j + c],
        decreases n - k,
    {
        assert(4 * k + 4 <= rgba.len()) by (nonlinear_arith)
            requires
                k < n,
                n == rgba.len() / 4,
        ;
        out.push(rgba[4 * k]);
        out.push(rgba[4 * k + 1]);
        out.push(rgba[4 * k + 2]);
        k = k + 1;
    }
    out
}

/// The 8-bit value of a 10-bit sample: the top eight of its ten bits, at
/// most 255.
pub open spec fn spec_sample_10_to_8(v: u16) -> u8 {
    if v / 4 > 255 { 255 } else { (v / 4) as u8 }
}

/// Scale a 10-bit sample (0-1023) down to 8 bits; larger values give 255.
pub fn sample_10_to_8(v: u16) -> (r: u8)
    ensures
        r == spec_sample_10_to_8(v),
{
    let s = v >> 2;
    assert(s == v / 4) by (bit_vector)
        requires
            s == v >> 2,
    ;
    if s > 255 { 255 } else { s as u8 }
}

/// 16-bit samples with `channels` samples per pixel (3 for RGB, 4 for RGBA)
/// to packed 8-bit RGB, each kept sample scaled from 10 bits; alpha and a
/// trailing partial pixel are dropped.
pub fn samples16_to_rgb8(samples: &[u16], channels: usize) -> (r: Vec<u8>)
    requires
        channels == 3 || channels == 4,
    ensures
        r@.len() == (samples@.len() as int / channels as int) * 3,
        forall|k: int, c: int| 0 <= k < samples@.len() as int / channels as int && 0 <= c < 3 ==>
            #[trigger] r@[3 * k + c] == spec_sample_10_to_8(samples@[channels * k + c]),
        is_rgb_of_samples16(samples@, channels as int, r@),
{
    let n = samples.len() / channels;
    let mut out: Vec<u8> = Vec::new();
    let mut k: usize = 0;
    while k < n
        invariant
            channels == 3 || channels == 4,
            n == samples@.len() as int / channels as int,
            k <= n,
            out@.len() == 3 * k,
            forall|j: int, c: int| 0 <= j < k && 0 <= c < 3 ==>
                #[trigger] out@[3 * j + c] == spec_sample_10_to_8(samples@[channels * j + c]),
        decreases n - k,
    {
        proof {
            assert(channels * k + channels <= samples.len()) by (nonlinear_arith)
                requires
                    k < n,
                    n == samples.len() as int / channels as int,
                    channels == 3 || channels == 4,
            ;
        }
        let base = channels * k;
        out.push(sample_10_to_8(samples[base]));
        out.push(sample_10_to_8(samples[base + 1]));
        out.push(sample_10_to_8(samples[base + 2]));
        k = k + 1;
    }
    out
}

/// One gray byte per pixel to packed RGB with the gray value in every
/// channel.
pub fn gray_to_rgb(gray: &[u8]) -> (r: Vec<u8>)
    ensures
        r@.len() == gray@.len() * 3,
        forall|k: int, c: int| 0 <= k < gray@.len() && 0 <= c < 3 ==> #[trigger] r@[3 * k + c] == gray@[k],
{
    let n = gray.len();
    let mut out: Vec<u8> = Vec::new();
    let mut k: usize = 0;
    while k < n
        invariant
            n == gray@.len(),
            k <= n,
            out@.len() == 3 * k,
            forall|j: int, c: int| 0 <= j < k && 0 <= c < 3 ==> #[trigger] out@[3 * j + c] == gray@[j],
        decreases n - k,
    {
        let g = gray[k];
        out.push(g);
        out.push(g);
        out.push(g);
        k = k + 1;
    }
    out
}

} // verus!
