use codec_compare::cli::compare_args::{corpus_image_count, format_size, parse_formats, FormatListError};
use codec_compare::cli::compare_args::select_formats;
use codec_compare::cli::results::{metric_decimals, no_valid_points_message, parse_output_format, parse_pareto_metric, OutputFormat, ParetoMetric};

#[test]
fn parse_all_formats() {
    let s = parse_formats("all").unwrap();
    assert!(s.jpeg && s.webp && s.avif && s.jpegxl);
}

#[test]
fn parse_format_list() {
    let s = parse_formats("jpeg, WebP").unwrap();
    assert!(s.jpeg && s.webp && !s.avif && !s.jpegxl);
    let s = parse_formats("JPG,avif").unwrap();
    assert!(s.jpeg && !s.webp && s.avif && !s.jpegxl);
}

#[test]
fn unknown_format_is_reported_lower_cased() {
    match parse_formats("jpeg,GIF") {
        Err(FormatListError::UnknownFormat(w)) => assert_eq!(w, "gif"),
        Ok(_) => panic!("expected an error"),
    }
    match parse_formats("") {
        Err(FormatListError::UnknownFormat(w)) => assert_eq!(w, ""),
        Ok(_) => panic!("expected an error"),
    }
}

#[test]
fn sizes_are_formatted_like_the_tool() {
    assert_eq!(format_size(0), "0 B");
    assert_eq!(format_size(1023), "1023 B");
    assert_eq!(format_size(1024), "1.0 KB");
    assert_eq!(format_size(1536), "1.5 KB");
    assert_eq!(format_size(1024 * 1024 - 1), "1024.0 KB");
    assert_eq!(format_size(1024 * 1024), "1.0 MB");
    assert_eq!(format_size(5 * 1024 * 1024 + 300 * 1024), "5.3 MB");
}

#[test]
fn corpus_count_respects_the_limit() {
    assert_eq!(corpus_image_count(None, 7), 7);
    assert_eq!(corpus_image_count(Some(3), 7), 3);
    assert_eq!(corpus_image_count(Some(30), 7), 7);
    assert_eq!(corpus_image_count(Some(0), 7), 0);
}

#[test]
fn format_words_select_formats() {
    let words: Vec<String> = vec!["jpg".into(), "avif".into()];
    let s = select_formats(&words).unwrap();
    assert!(s.jpeg && !s.webp && s.avif && !s.jpegxl);
    let words: Vec<String> = vec!["webp".into(), "JPEG".into()];
    match select_formats(&words) {
        Err(FormatListError::UnknownFormat(w)) => assert_eq!(w, "JPEG"),
        Ok(_) => panic!("expected an error"),
    }
}

#[test]
fn pareto_metric_names() {
    assert_eq!(parse_pareto_metric("DSSIM"), Some(ParetoMetric::Dssim));
    assert_eq!(parse_pareto_metric("ssim2"), Some(ParetoMetric::Ssimulacra2));
    assert_eq!(parse_pareto_metric("Ba"), Some(ParetoMetric::Butteraugli));
    assert_eq!(parse_pareto_metric("psnr"), Some(ParetoMetric::Psnr));
    assert_eq!(parse_pareto_metric("vmaf"), None);
    assert!(ParetoMetric::Dssim.negated());
    assert!(ParetoMetric::Butteraugli.negated());
    assert!(!ParetoMetric::Psnr.negated());
    assert_eq!(metric_decimals("DSSIM"), 6);
    assert_eq!(metric_decimals("butteraugli"), 6);
    assert_eq!(metric_decimals("ba"), 2);
    assert_eq!(metric_decimals("psnr"), 2);
    assert_eq!(parse_output_format("json"), Some(OutputFormat::Json));
    assert_eq!(parse_output_format("csv"), Some(OutputFormat::Csv));
    assert_eq!(parse_output_format("text"), Some(OutputFormat::Text));
    assert_eq!(parse_output_format("TEXT"), None);
}

#[test]
fn error_messages() {
    assert_eq!(
        FormatListError::UnknownFormat(String::from("gif")).message(),
        "Unknown format: gif. Use: jpeg, webp, avif"
    );
    assert_eq!(no_valid_points_message("dssim"), "No valid points found for metric 'dssim'");
}
