use codec_compare::cli::sweep_args::{format_duration, parse_range, parse_u8, quality_steps, range_step_is_zero};
use codec_compare::cli::sweep_args::{comparison_qualities, parse_quality_list};

#[test]
fn durations() {
    assert_eq!(format_duration(0), "0s");
    assert_eq!(format_duration(59), "59s");
    assert_eq!(format_duration(60), "1m 0s");
    assert_eq!(format_duration(185), "3m 5s");
    assert_eq!(format_duration(3600), "1h 0m");
    assert_eq!(format_duration(7620 + 59), "2h 7m");
}

#[test]
fn stepped_qualities() {
    assert_eq!(quality_steps(50, 60, 5), vec![50, 55, 60]);
    assert_eq!(quality_steps(50, 61, 5), vec![50, 55, 60]);
    assert_eq!(quality_steps(90, 80, 5), Vec::<u8>::new());
    assert_eq!(quality_steps(250, 255, 4), vec![250, 254]);
    assert_eq!(quality_steps(7, 7, 1), vec![7]);
}

#[test]
fn quality_numbers_parse_like_str_parse() {
    assert_eq!(parse_u8("0"), Some(0));
    assert_eq!(parse_u8("255"), Some(255));
    assert_eq!(parse_u8("+42"), Some(42));
    assert_eq!(parse_u8("007"), Some(7));
    assert_eq!(parse_u8("256"), None);
    assert_eq!(parse_u8(""), None);
    assert_eq!(parse_u8("+"), None);
    assert_eq!(parse_u8("-1"), None);
    assert_eq!(parse_u8(" 5"), None);
    for s in ["0", "9", "99", "200", "255", "+1", "12a", "300", "1000"] {
        assert_eq!(parse_u8(s), s.parse::<u8>().ok());
    }
}

#[test]
fn ranges() {
    assert_eq!(parse_range("10:20:50"), vec![10, 30, 50]);
    assert_eq!(parse_range("x:y:z"), (10..=98).step_by(2).collect::<Vec<u8>>());
    assert_eq!(parse_range("80"), vec![10, 20, 30, 40, 50, 60, 70, 75, 80, 85, 90, 95]);
    assert_eq!(parse_range("1:2:3:4"), vec![10, 20, 30, 40, 50, 60, 70, 75, 80, 85, 90, 95]);
}

#[test]
fn comparison_quality_ranges() {
    assert_eq!(parse_quality_list("50, 70,x,85"), vec![50, 70, 85]);
    assert!(parse_quality_list("").is_empty());
    assert_eq!(comparison_qualities("25,90,5").len(), 14);
    assert_eq!(comparison_qualities("60,70,5"), vec![60, 65, 70]);
    assert_eq!(comparison_qualities("60, bad, 70, 5"), vec![60, 65, 70]);
    assert_eq!(comparison_qualities("1,2"), comparison_qualities("25,90,5"));
}

#[test]
fn zero_step_ranges() {
    assert!(range_step_is_zero("10:0:90"));
    assert!(range_step_is_zero("10:00:90"));
    assert!(!range_step_is_zero("10:5:90"));
    assert!(!range_step_is_zero("10:x:90"));
    assert!(!range_step_is_zero("10:0"));
    assert!(!range_step_is_zero("0:0:0:0"));
}
