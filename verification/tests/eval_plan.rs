use codec_compare::cli::eval_plan::{distinct_qualities, eval_plan, eval_target, EvalFormat, EvalFormatError};
use codec_compare::cli::sources::{is_source_file_name, select_source_files};
use codec_compare::cli::sources::{is_analysis_image_extension, is_png_extension, kept_count_of};

#[test]
fn eval_targets() {
    let (f, key) = eval_target("jpeg", "qm").unwrap();
    assert_eq!(f, EvalFormat::Jpeg);
    assert_eq!(key, "jpeg");
    let (f, key) = eval_target("avif", "qm-rdotx").unwrap();
    assert_eq!(f, EvalFormat::Avif);
    assert_eq!(key, "avif-qm-rdotx");
    match eval_target("webp", "qm") {
        Err(EvalFormatError::UnknownFormat(n)) => assert_eq!(n, "webp"),
        Ok(_) => panic!("expected an error"),
    }
    assert!(eval_target("JPEG", "qm").is_err());
}

#[test]
fn evaluation_order_is_image_by_image() {
    assert_eq!(eval_plan(2, &vec![75, 95]), vec![(0, 75), (0, 95), (1, 75), (1, 95)]);
    assert!(eval_plan(0, &vec![75]).is_empty());
    assert!(eval_plan(3, &vec![]).is_empty());
}

#[test]
fn report_rows_are_sorted_distinct_qualities() {
    assert_eq!(distinct_qualities(&vec![95, 75, 85, 75, 95]), vec![75, 85, 95]);
    assert_eq!(distinct_qualities(&vec![]), Vec::<u8>::new());
    assert_eq!(distinct_qualities(&vec![255, 0]), vec![0, 255]);
}

#[test]
fn source_file_extensions() {
    assert!(is_source_file_name("a.png"));
    assert!(is_source_file_name("b.ppm"));
    assert!(is_source_file_name("..png"));
    assert!(!is_source_file_name(".png"));
    assert!(!is_source_file_name("a.PNG"));
    assert!(!is_source_file_name("a.jpg"));
    assert!(!is_source_file_name("png"));
    for name in ["a.png", ".png", "..png", "x.ppm", "x.png.bak", "png", "a.pngx"] {
        let ext = std::path::Path::new(name).extension().and_then(|s| s.to_str());
        assert_eq!(is_source_file_name(name), matches!(ext, Some("png" | "ppm")), "{name}");
    }
}

#[test]
fn source_files_sorted_and_limited() {
    let names: Vec<String> = ["c.png", "notes.txt", "a.ppm", "b.png", ".png"].iter().map(|s| s.to_string()).collect();
    assert_eq!(select_source_files(names.clone(), 0), vec!["a.ppm", "b.png", "c.png"]);
    assert_eq!(select_source_files(names.clone(), 2), vec!["a.ppm", "b.png"]);
    assert_eq!(select_source_files(names, 10), vec!["a.ppm", "b.png", "c.png"]);
    assert!(select_source_files(Vec::new(), 3).is_empty());
}

#[test]
fn analysis_image_extensions_and_limits() {
    assert!(is_analysis_image_extension("PNG"));
    assert!(is_analysis_image_extension("jpeg"));
    assert!(is_analysis_image_extension("Jpg"));
    assert!(!is_analysis_image_extension("webp"));
    assert!(is_png_extension("PnG"));
    assert!(!is_png_extension("jpg"));
    assert_eq!(kept_count_of(10, 0), 10);
    assert_eq!(kept_count_of(10, 3), 3);
    assert_eq!(kept_count_of(2, 3), 2);
}

#[test]
fn unknown_eval_format_message() {
    assert_eq!(
        EvalFormatError::UnknownFormat(String::from("webp")).message(),
        "Unknown format: webp. Supported: jpeg, avif"
    );
}
