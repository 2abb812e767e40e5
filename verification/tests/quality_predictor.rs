use codec_compare::quality_predictor::{jpegli_to_mozjpeg_quality, mozjpeg_to_jpegli_quality};

#[test]
fn test_quality_equivalence() {
    // mozjpeg Q90 should map to roughly jpegli Q80
    assert!((mozjpeg_to_jpegli_quality(90) as i32 - 80).abs() <= 5);

    // mozjpeg Q85 should map to roughly jpegli Q70
    assert!((mozjpeg_to_jpegli_quality(85) as i32 - 70).abs() <= 5);
}

#[test]
fn documented_equivalences() {
    assert_eq!(mozjpeg_to_jpegli_quality(90), 80);
    assert_eq!(mozjpeg_to_jpegli_quality(85), 70);
    assert_eq!(mozjpeg_to_jpegli_quality(75), 55);
    assert_eq!(mozjpeg_to_jpegli_quality(60), 35);
}

#[test]
fn low_and_out_of_range_mozjpeg_qualities_map_to_25() {
    assert_eq!(mozjpeg_to_jpegli_quality(59), 25);
    assert_eq!(mozjpeg_to_jpegli_quality(0), 25);
    assert_eq!(mozjpeg_to_jpegli_quality(101), 25);
    assert_eq!(mozjpeg_to_jpegli_quality(255), 25);
    assert_eq!(mozjpeg_to_jpegli_quality(100), 90);
}

#[test]
fn jpegli_to_mozjpeg_bands() {
    assert_eq!(jpegli_to_mozjpeg_quality(80), 90);
    assert_eq!(jpegli_to_mozjpeg_quality(95), 100);
    assert_eq!(jpegli_to_mozjpeg_quality(70), 85);
    assert_eq!(jpegli_to_mozjpeg_quality(55), 75);
    assert_eq!(jpegli_to_mozjpeg_quality(35), 60);
    assert_eq!(jpegli_to_mozjpeg_quality(34), 100);
    assert_eq!(jpegli_to_mozjpeg_quality(25), 100);
    assert_eq!(jpegli_to_mozjpeg_quality(200), 100);
}

#[test]
fn mozjpeg_round_trip_over_the_whole_band() {
    for q in 60u8..=100 {
        assert_eq!(jpegli_to_mozjpeg_quality(mozjpeg_to_jpegli_quality(q)), q);
    }
}

#[test]
fn mozjpeg_to_jpegli_is_monotone() {
    for a in 0u8..=100 {
        for b in a..=100 {
            assert!(mozjpeg_to_jpegli_quality(a) <= mozjpeg_to_jpegli_quality(b));
        }
    }
}
