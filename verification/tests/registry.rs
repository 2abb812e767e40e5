use codec_compare::compare::{bd_rate_partners, comparison_codecs, points_of_codec, subject_on_pareto};
use codec_compare::registry::{codecs_for_selection, sweep_codecs, CodecChoice, FormatSelection};
use codec_compare::compare::CompareScope;

fn ids(v: &[CodecChoice]) -> Vec<String> {
    v.iter().map(|c| c.id().to_string()).collect()
}

fn strings(v: &[&str]) -> Vec<String> {
    v.iter().map(|s| s.to_string()).collect()
}

const JPEG_IDS: [&str; 8] = [
    "mozjpeg-420-prog",
    "mozjpeg-444-prog",
    "mozjpeg-420-base",
    "mozjpeg-444-base",
    "jpegli-420-prog",
    "jpegli-444-prog",
    "jpegli-420-base",
    "jpegli-444-base",
];

#[test]
fn format_selection_presets() {
    let a = FormatSelection::all();
    assert!(a.jpeg && a.webp && a.avif && a.jpegxl);
    let j = FormatSelection::jpeg_only();
    assert!(j.jpeg && !j.webp && !j.avif && !j.jpegxl);
    let n = FormatSelection::next_gen();
    assert!(!n.jpeg && n.webp && n.avif && n.jpegxl);
    let d = FormatSelection::default();
    assert!(!d.jpeg && !d.webp && !d.avif && !d.jpegxl);
}

#[test]
fn all_formats_register_every_codec_in_order() {
    let got = ids(&codecs_for_selection(&FormatSelection::all(), 6));
    let mut want = strings(&JPEG_IDS);
    want.push("webp".to_string());
    want.extend(strings(&["avif-rav1e"]));
    want.push("jpegxl".to_string());
    assert_eq!(got, want);
}

#[test]
fn registered_identifiers_are_distinct() {
    let got = ids(&codecs_for_selection(&FormatSelection::all(), 6));
    for i in 0..got.len() {
        for j in 0..got.len() {
            if i != j {
                assert_ne!(got[i], got[j]);
            }
        }
    }
}

#[test]
fn jpeg_only_and_next_gen_selections() {
    assert_eq!(ids(&codecs_for_selection(&FormatSelection::jpeg_only(), 6)), strings(&JPEG_IDS));
    assert_eq!(
        ids(&codecs_for_selection(&FormatSelection::next_gen(), 6)),
        strings(&["webp", "avif-rav1e", "jpegxl"])
    );
    assert!(codecs_for_selection(&FormatSelection::default(), 6).is_empty());
}

#[test]
fn avif_codecs_run_at_the_clamped_speed() {
    let v = codecs_for_selection(&FormatSelection::next_gen(), 42);
    let mut seen = 0;
    for c in &v {
        if let CodecChoice::Avif(a) = c {
            assert_eq!(a.speed(), 10);
            seen += 1;
        }
    }
    assert_eq!(seen, 1);
}

#[test]
fn sweep_codec_lists() {
    assert_eq!(ids(&sweep_codecs(false, false, false, 6)), strings(&JPEG_IDS));
    let mut want = strings(&JPEG_IDS);
    want.push("zenjpeg".to_string());
    want.push("webp".to_string());
    want.extend(strings(&["avif-rav1e"]));
    assert_eq!(ids(&sweep_codecs(true, true, true, 6)), want);
}

#[test]
fn comparison_against_other_formats_leaves_out_the_subject_format() {
    let got = ids(&comparison_codecs(Some("jpeg"), false, true, "zenjpeg"));
    assert_eq!(got, strings(&["webp", "avif-rav1e"]));
}

#[test]
fn comparison_with_same_format_only() {
    let got = ids(&comparison_codecs(Some("jpg"), true, false, "zenjpeg"));
    assert_eq!(got, strings(&["mozjpeg-420-prog", "jpegli-420-prog"]));
    let got = ids(&comparison_codecs(Some("avif"), true, false, "avif-rav1e"));
    assert!(got.is_empty());
    let got = ids(&comparison_codecs(Some("avif"), true, false, "avif-rav1e-qm"));
    assert_eq!(got, strings(&["avif-rav1e"]));
}

#[test]
fn comparison_never_includes_the_subject() {
    let got = ids(&comparison_codecs(Some("webp"), true, true, "webp"));
    assert!(!got.contains(&"webp".to_string()));
    assert_eq!(got.len(), 3);
}

#[test]
fn no_groups_no_comparison() {
    assert!(comparison_codecs(Some("jpeg"), false, false, "x").is_empty());
    assert!(comparison_codecs(None, false, false, "x").is_empty());
}

#[test]
fn unknown_subject_format_compares_against_everything_other() {
    let got = ids(&comparison_codecs(None, true, true, "none"));
    assert_eq!(
        got,
        strings(&["mozjpeg-420-prog", "jpegli-420-prog", "webp", "avif-rav1e"])
    );
}

#[test]
fn bd_rate_partners_need_two_points_each() {
    let pts = strings(&["s", "a", "s", "a", "b", "c", "c", "c"]);
    let mut got = bd_rate_partners(&pts, "s");
    got.sort();
    assert_eq!(got, strings(&["a", "c"]));
    let pts = strings(&["s", "a", "a"]);
    assert!(bd_rate_partners(&pts, "s").is_empty());
}

#[test]
fn subject_curve_points() {
    let pts = strings(&["a", "s", "b", "s"]);
    assert_eq!(points_of_codec(&pts, "s"), vec![1, 3]);
    assert!(points_of_codec(&pts, "z").is_empty());
    assert!(subject_on_pareto(&pts, "b"));
    assert!(!subject_on_pareto(&pts, "z"));
    assert!(!subject_on_pareto(&Vec::new(), "s"));
}

#[test]
fn compare_scope_builders() {
    let d = CompareScope::default();
    assert!(d.include_same_format && d.include_other_formats && d.limit.is_none() && !d.delete_excluded);
    let s = CompareScope::default().same_format_only().with_limit(10);
    assert!(s.include_same_format && !s.include_other_formats);
    assert_eq!(s.limit, Some(10));
    let o = s.other_formats_only().delete_excluded();
    assert!(!o.include_same_format && o.include_other_formats && o.delete_excluded);
    assert!(o.compares_any());
    let none = CompareScope { include_same_format: false, include_other_formats: false, limit: None, delete_excluded: false };
    assert!(!none.compares_any());
    assert!(none.comparison_codecs(Some("jpeg"), "x").is_empty());
    let ids: Vec<String> = CompareScope::default()
        .same_format_only()
        .comparison_codecs(Some("jpeg"), "mozjpeg-420-prog")
        .iter()
        .map(|c| c.id().to_string())
        .collect();
    assert_eq!(ids, vec!["jpegli-420-prog".to_string()]);
}
