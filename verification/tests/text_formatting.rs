use codec_compare::cli::compare_args::format_size;
use codec_compare::text::char_is_whitespace;

fn reference_format_size(bytes: usize) -> String {
    if bytes < 1024 {
        format!("{} B", bytes)
    } else if bytes < 1024 * 1024 {
        format!("{:.1} KB", bytes as f64 / 1024.0)
    } else {
        format!("{:.1} MB", bytes as f64 / 1024.0 / 1024.0)
    }
}

#[test]
fn format_size_examples() {
    assert_eq!(format_size(0), "0 B");
    assert_eq!(format_size(1023), "1023 B");
    assert_eq!(format_size(1024), "1.0 KB");
    assert_eq!(format_size(1536), "1.5 KB");
    assert_eq!(format_size(1024 * 1024), "1.0 MB");
}

#[test]
fn format_size_rounds_like_float_formatting() {
    let mut samples: Vec<usize> = Vec::new();
    for b in 1000..70_000 {
        samples.push(b);
    }
    for k in 0..5000usize {
        samples.push(1024 * 1024 + k * 5243);
        samples.push(1_048_000 + k);
    }
    samples.push(1280);
    samples.push(1024 * 1024 * 5 / 4 * 2);
    samples.push(usize::MAX);
    samples.push(usize::MAX - 1023);
    samples.push((1usize << 53) + 1);
    samples.push((1usize << 54) + 3);
    samples.push((1usize << 60) + (1usize << 7) + 1);
    for b in samples {
        assert_eq!(format_size(b), reference_format_size(b), "bytes = {}", b);
    }
}

#[test]
fn white_space_is_the_unicode_property() {
    for c in ['\t', '\n', '\r', ' ', '\u{85}', '\u{A0}', '\u{2000}', '\u{200A}', '\u{2029}', '\u{3000}'] {
        assert!(char_is_whitespace(c));
        assert_eq!(char_is_whitespace(c), c.is_whitespace());
    }
    for c in ['a', '\u{200B}', '\u{FEFF}', '\u{8}', '0'] {
        assert!(!char_is_whitespace(c));
        assert_eq!(char_is_whitespace(c), c.is_whitespace());
    }
}
