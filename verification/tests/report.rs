use codec_compare::report::{
    baseline_codec, bpp_axis_label, codec_groups, codec_format_label, format_chart_file_name, format_chart_title,
    format_group, metric_axis_label, pareto_chart_title, FormatGroup, Metric, ReportGenerator,
};

#[test]
fn metric_names_and_directions() {
    assert_eq!(Metric::Ssimulacra2.name(), "SSIMULACRA2");
    assert_eq!(Metric::Dssim.name(), "DSSIM");
    assert_eq!(Metric::Butteraugli.name(), "Butteraugli");
    assert_eq!(Metric::Psnr.name(), "PSNR");
    assert!(!Metric::Ssimulacra2.lower_is_better());
    assert!(Metric::Dssim.lower_is_better());
    assert!(Metric::Butteraugli.lower_is_better());
    assert!(!Metric::Psnr.lower_is_better());
    assert_eq!(Metric::Psnr.y_label(), "PSNR (dB)");
}

#[test]
fn report_generator_builder() {
    let g = ReportGenerator::new("out".to_string());
    assert_eq!(g.primary_metric, Metric::Ssimulacra2);
    assert_eq!(g.output_dir, "out");
    let g = g.with_metric(Metric::Dssim);
    assert_eq!(g.primary_metric, Metric::Dssim);
    assert_eq!(g.output_dir, "out");
    let d = ReportGenerator::default();
    assert_eq!(d.output_dir, "./reports");
}

#[test]
fn chart_titles_and_labels() {
    assert_eq!(pareto_chart_title(Metric::Ssimulacra2), "SSIMULACRA2 vs Bits per Pixel");
    assert_eq!(bpp_axis_label(), "Bits per Pixel (BPP) \u{2192}");
    assert_eq!(metric_axis_label(Metric::Dssim), "\u{2190} DSSIM (lower is better)");
    assert_eq!(format_chart_title(FormatGroup::Avif, Metric::Psnr), "AVIF Codecs: PSNR vs BPP");
    assert_eq!(format_chart_file_name(FormatGroup::Jpeg), "pareto_jpeg.svg");
    assert_eq!(FormatGroup::Webp.name(), "webp");
    assert_eq!(FormatGroup::Other.upper_name(), "OTHER");
}

#[test]
fn format_groups_of_codecs() {
    assert_eq!(format_group("avif-rav1e"), FormatGroup::Avif);
    assert_eq!(format_group("mozjpeg-420-prog"), FormatGroup::Jpeg);
    assert_eq!(format_group("jpegli"), FormatGroup::Jpeg);
    assert_eq!(format_group("zenjpeg"), FormatGroup::Jpeg);
    assert_eq!(format_group("webp"), FormatGroup::Webp);
    assert_eq!(format_group("jpegxl"), FormatGroup::Jpeg);
    assert_eq!(format_group("png"), FormatGroup::Other);
}

#[test]
fn format_label_is_the_output_format() {
    assert_eq!(codec_format_label("mozjpeg-420-prog"), "jpg");
    assert_eq!(codec_format_label("jpegli-444-base"), "jpg");
    assert_eq!(codec_format_label("zenjpeg"), "jpg");
    assert_eq!(codec_format_label("avif-rav1e"), "avif");
    assert_eq!(codec_format_label("webp"), "webp");
    assert_eq!(codec_format_label("jpegxl"), "jxl");
    assert_eq!(codec_format_label("a-"), "unknown");
}

#[test]
fn baseline_is_the_least_identifier() {
    let ids: Vec<String> = vec!["webp".into(), "avif-rav1e".into(), "mozjpeg".into()];
    assert_eq!(baseline_codec(&ids), Some("avif-rav1e".to_string()));
    assert_eq!(baseline_codec(&Vec::new()), None);
}

#[test]
fn codec_groups_sorted_with_first_result_and_count() {
    let ids: Vec<String> = ["webp", "avif-rav1e", "webp", "mozjpeg-420-prog", "avif-rav1e", "webp"]
        .iter()
        .map(|s| s.to_string())
        .collect();
    let g = codec_groups(&ids);
    let got: Vec<(&str, usize, usize)> = g.iter().map(|x| (x.codec_id.as_str(), x.first, x.count)).collect();
    assert_eq!(got, vec![("avif-rav1e", 1, 2), ("mozjpeg-420-prog", 3, 1), ("webp", 0, 3)]);
    assert!(codec_groups(&Vec::new()).is_empty());
}
