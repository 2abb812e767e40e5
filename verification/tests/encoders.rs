use codec_compare::encoders::avif::{AvifCodec, AvifEncoder};
use codec_compare::encoders::codec_color;
use codec_compare::encoders::jpeg::{JpegMode, JpegSubsampling, JpegliCodec, MozJpegCodec};
use codec_compare::encoders::jpegxl::{effort_for_speed, JpegxlCodec, JxlEffort};
use codec_compare::encoders::pixels::{gray_to_rgb, rgb_to_rgba, rgba_to_rgb, sample_10_to_8, samples16_to_rgb8};
use codec_compare::encoders::webp::WebPCodec;
use codec_compare::encoders::zenjpeg::ZenjpegCodec;

#[test]
fn jpeg_suffixes() {
    assert_eq!(JpegSubsampling::S444.suffix(), "-444");
    assert_eq!(JpegSubsampling::S420.suffix(), "-420");
    assert_eq!(JpegMode::Progressive.suffix(), "-prog");
    assert_eq!(JpegMode::Baseline.suffix(), "-base");
}

#[test]
fn jpeg_defaults_are_420_progressive() {
    let m = MozJpegCodec::new();
    assert_eq!(m.id(), "mozjpeg-420-prog");
    assert_eq!(m.subsampling(), JpegSubsampling::S420);
    assert_eq!(m.mode(), JpegMode::Progressive);
    assert_eq!(m.format(), "jpg");
    let j = JpegliCodec::new();
    assert_eq!(j.id(), "jpegli-420-prog");
    assert_eq!(j.format(), "jpg");
}

#[test]
fn jpeg_with_config_builds_the_identifier() {
    let m = MozJpegCodec::with_config(JpegSubsampling::S444, JpegMode::Baseline);
    assert_eq!(m.id(), "mozjpeg-444-base");
    let j = JpegliCodec::with_config(JpegSubsampling::S444, JpegMode::Progressive);
    assert_eq!(j.id(), "jpegli-444-prog");
}

#[test]
fn jpeg_all_variants_in_order() {
    let ids: Vec<String> = MozJpegCodec::all_variants().iter().map(|c| c.id().to_string()).collect();
    assert_eq!(ids, vec!["mozjpeg-420-prog", "mozjpeg-444-prog", "mozjpeg-420-base", "mozjpeg-444-base"]);
    let ids: Vec<String> = JpegliCodec::all_variants().iter().map(|c| c.id().to_string()).collect();
    assert_eq!(ids, vec!["jpegli-420-prog", "jpegli-444-prog", "jpegli-420-base", "jpegli-444-base"]);
}

#[test]
fn avif_encoder_ids_and_names() {
    assert_eq!(AvifEncoder::Rav1e.id(), "avif-rav1e");
    assert_eq!(AvifEncoder::Rav1eImazen.id(), "avif-rav1e-imazen");
    assert_eq!(AvifEncoder::Rav1eQmOnly.id(), "avif-rav1e-qm");
    assert_eq!(AvifEncoder::Rav1eVaqOnly.id(), "avif-rav1e-qm-vb");
    assert_eq!(AvifEncoder::Rav1eStillOnly.id(), "avif-rav1e-still");
    assert_eq!(AvifEncoder::Rav1e.name(), "AVIF (rav1e)");
    assert_eq!(AvifEncoder::Rav1eVaqOnly.name(), "AVIF (rav1e QM+VarBoost)");
}

#[test]
fn avif_all_lists_every_variant() {
    assert_eq!(
        AvifEncoder::all(),
        vec![
            AvifEncoder::Rav1e,
            AvifEncoder::Rav1eImazen,
            AvifEncoder::Rav1eQmOnly,
            AvifEncoder::Rav1eVaqOnly,
            AvifEncoder::Rav1eStillOnly,
        ]
    );
    assert_eq!(AvifEncoder::supported(), vec![AvifEncoder::Rav1e]);
    assert_eq!(AvifCodec::supported().len(), 1);
    let codecs = AvifCodec::all();
    assert_eq!(codecs.len(), 5);
    for c in &codecs {
        assert_eq!(c.speed(), 6);
        assert_eq!(c.format(), "avif");
    }
}

#[test]
fn avif_tuning_of_variants() {
    let t = AvifEncoder::Rav1e.tuning();
    assert!(!t.qm && !t.vaq && !t.still_image);
    let t = AvifEncoder::Rav1eVaqOnly.tuning();
    assert!(t.qm && t.vaq);
    assert_eq!(t.vaq_strength_tenths, 3);
    assert!(AvifEncoder::Rav1eStillOnly.tuning().still_image);
}

#[test]
fn avif_speed_is_clamped() {
    assert_eq!(AvifCodec::new(AvifEncoder::Rav1e).speed(), 6);
    assert_eq!(AvifCodec::new(AvifEncoder::Rav1e).with_speed(0).speed(), 1);
    assert_eq!(AvifCodec::new(AvifEncoder::Rav1e).with_speed(4).speed(), 4);
    assert_eq!(AvifCodec::new(AvifEncoder::Rav1e).with_speed(200).speed(), 10);
    assert_eq!(AvifCodec::new(AvifEncoder::Rav1eImazen).id(), "avif-rav1e-imazen");
}

#[test]
fn jpegxl_speed_and_effort() {
    let c = JpegxlCodec::new();
    assert_eq!(c.id(), "jpegxl");
    assert_eq!(c.format(), "jxl");
    assert_eq!(c.speed(), 7);
    assert_eq!(c.with_speed(3).speed(), 3);
    assert_eq!(JpegxlCodec::new().with_speed(42).speed(), 9);
    assert_eq!(effort_for_speed(0), JxlEffort::Tortoise);
    assert_eq!(effort_for_speed(2), JxlEffort::Kitten);
    assert_eq!(effort_for_speed(4), JxlEffort::Wombat);
    assert_eq!(effort_for_speed(7), JxlEffort::Squirrel);
    assert_eq!(effort_for_speed(8), JxlEffort::Cheetah);
    assert_eq!(effort_for_speed(9), JxlEffort::Lightning);
}

#[test]
fn webp_and_zenjpeg_descriptions() {
    let w = WebPCodec::new();
    assert_eq!(w.id(), "webp");
    assert_eq!(w.format(), "webp");
    let z = ZenjpegCodec::new();
    assert_eq!(z.id(), "zenjpeg");
    assert_eq!(z.format(), "jpg");
    assert_eq!(ZenjpegCodec::all_variants().len(), 1);
}

#[test]
fn codec_colors() {
    assert_eq!(codec_color("mozjpeg"), "#e74c3c");
    assert_eq!(codec_color("jpegli"), "#3498db");
    assert_eq!(codec_color("webp"), "#27ae60");
    assert_eq!(codec_color("jpegxl"), "#f39c12");
    assert_eq!(codec_color("something-else"), "#34495e");
}

#[test]
fn pixel_conversions() {
    assert_eq!(rgb_to_rgba(&[1, 2, 3, 4, 5, 6]), vec![1, 2, 3, 255, 4, 5, 6, 255]);
    assert_eq!(rgb_to_rgba(&[1, 2, 3, 4]), vec![1, 2, 3, 255]);
    assert_eq!(rgba_to_rgb(&[1, 2, 3, 9, 4, 5, 6, 9]), vec![1, 2, 3, 4, 5, 6]);
    assert_eq!(gray_to_rgb(&[7, 8]), vec![7, 7, 7, 8, 8, 8]);
    assert_eq!(sample_10_to_8(1023), 255);
    assert_eq!(sample_10_to_8(512), 128);
    assert_eq!(sample_10_to_8(4000), 255);
    assert_eq!(samples16_to_rgb8(&[1023, 0, 512, 1000], 4), vec![255, 0, 128]);
    assert_eq!(samples16_to_rgb8(&[4, 8, 12, 16, 20, 24], 3), vec![1, 2, 3, 4, 5, 6]);
}
