use codec_compare::cli::corpus::{count_by_key, run as corpus_run, select_images, CorpusAction, CorpusStep, ImageEntry, ImageFilter};
use codec_compare::cli::sparse::{build_filters, preview_pattern_list, run as sparse_run, FilterSpec, SparseAction, SparseStep, StatusReport};

fn strings(v: &[&str]) -> Vec<String> {
    v.iter().map(|s| s.to_string()).collect()
}

#[test]
fn filters_in_order() {
    let f = build_filters(&strings(&["docs/*"]), &strings(&["png"]), &strings(&["photos"]));
    assert_eq!(f.len(), 3);
    assert!(matches!(&f[0], FilterSpec::Pattern(p) if p == "docs/*"));
    assert!(matches!(&f[1], FilterSpec::Format(p) if p == "png"));
    assert!(matches!(&f[2], FilterSpec::Category(p) if p == "photos"));
}

#[test]
fn preview_patterns_expand_formats_and_categories() {
    let p = preview_pattern_list(&strings(&["x/**"]), &strings(&[".webp"]), &strings(&["photos"]));
    assert_eq!(
        p,
        strings(&["x/**", "**/*.webp", "**/photos/", "**/photos/**", "photos/", "photos/**"])
    );
}

#[test]
fn sparse_add_steps() {
    let steps = sparse_run(&SparseAction::Add {
        path: "repo".to_string(),
        patterns: strings(&["a/*", "b/*"]),
        format: strings(&["png"]),
        category: vec![],
    });
    assert_eq!(steps.len(), 6);
    assert!(matches!(&steps[0], SparseStep::OpenRepo { path } if path == "repo"));
    assert!(matches!(&steps[1], SparseStep::AddPaths(v) if v.len() == 2));
    assert!(matches!(&steps[2], SparseStep::AddFilter(FilterSpec::Format(f)) if f == "png"));
    assert!(matches!(&steps[3], SparseStep::Say(s) if s == "Added 3 patterns"));
    assert!(matches!(&steps[4], SparseStep::Reapply));
    assert!(matches!(&steps[5], SparseStep::Report(StatusReport::FilesNow)));
}

#[test]
fn sparse_set_without_patterns_says_so() {
    let steps = sparse_run(&SparseAction::SetPatterns {
        path: "repo".to_string(),
        patterns: vec![],
        format: vec![],
        category: vec![],
    });
    assert_eq!(steps.len(), 2);
    assert!(matches!(&steps[1], SparseStep::Say(s) if s == "No patterns specified. Use patterns, --format, or --category."));
}

#[test]
fn sparse_clone_and_fetch() {
    let steps = sparse_run(&SparseAction::Clone {
        url: "u".to_string(),
        target: "t".to_string(),
        depth: Some(1),
        include_paths: vec![],
        format: strings(&["png"]),
        category: vec![],
    });
    assert_eq!(steps.len(), 4);
    assert!(matches!(&steps[0], SparseStep::CloneRepo { url, target, depth: Some(1) } if url == "u" && target == "t"));
    assert!(matches!(&steps[1], SparseStep::SetFilters(f) if f.len() == 1));
    assert!(matches!(&steps[2], SparseStep::Checkout));
    assert!(matches!(&steps[3], SparseStep::Report(StatusReport::Cloned)));
    let steps = sparse_run(&SparseAction::Fetch { path: "p".to_string() });
    assert_eq!(steps.len(), 4);
    assert!(matches!(&steps[3], SparseStep::Report(StatusReport::Fetched)));
}

#[test]
fn corpus_discover_steps() {
    let steps = corpus_run(&CorpusAction::Discover { path: "c".to_string(), output: None, checksums: true });
    assert_eq!(steps.len(), 4);
    assert!(matches!(&steps[0], CorpusStep::Discover { path } if path == "c"));
    assert!(matches!(&steps[1], CorpusStep::ComputeChecksums));
    assert!(matches!(&steps[2], CorpusStep::PrintSummary));
    assert!(matches!(&steps[3], CorpusStep::PrintJson));
    let steps = corpus_run(&CorpusAction::Discover { path: "c".to_string(), output: Some("m.json".to_string()), checksums: false });
    assert_eq!(steps.len(), 3);
    assert!(matches!(&steps[2], CorpusStep::SaveManifest { output } if output == "m.json"));
}

#[test]
fn corpus_list_parses_the_category() {
    let steps = corpus_run(&CorpusAction::List {
        path: "c".to_string(),
        category: Some("Photos".to_string()),
        format: Some("PNG".to_string()),
        min_width: Some(100),
        min_height: None,
    });
    assert_eq!(steps.len(), 2);
    match &steps[1] {
        CorpusStep::ListImages(f) => {
            assert_eq!(f.category, Some(0));
            assert_eq!(f.format.as_deref(), Some("PNG"));
            assert_eq!(f.min_width, Some(100));
        }
        _ => panic!("expected a listing"),
    }
    let steps = corpus_run(&CorpusAction::List {
        path: "c".to_string(),
        category: Some("nonsense".to_string()),
        format: None,
        min_width: None,
        min_height: None,
    });
    assert!(matches!(&steps[1], CorpusStep::ListImages(f) if f.category.is_none()));
    let steps = corpus_run(&CorpusAction::List {
        path: "c".to_string(),
        category: Some("Screenshots".to_string()),
        format: None,
        min_width: None,
        min_height: None,
    });
    assert!(matches!(&steps[1], CorpusStep::ListImages(f) if f.category == Some(3)));
}

#[test]
fn image_selection() {
    let img = |c: Option<u8>, f: &str, w: u32, h: u32| ImageEntry { category: c, format: f.to_string(), width: w, height: h };
    let images = vec![img(Some(0), "png", 512, 512), img(Some(1), "JPG", 100, 50), img(None, "png", 2000, 10)];
    let all = ImageFilter { category: None, format: None, min_width: None, min_height: None };
    assert_eq!(select_images(&images, &all), vec![0, 1, 2]);
    let f = ImageFilter { category: None, format: Some("Png".to_string()), min_width: None, min_height: None };
    assert_eq!(select_images(&images, &f), vec![0, 2]);
    let f = ImageFilter { category: Some(1), format: Some("jpg".to_string()), min_width: Some(100), min_height: None };
    assert_eq!(select_images(&images, &f), vec![1]);
    let f = ImageFilter { category: None, format: None, min_width: Some(600), min_height: Some(20) };
    assert!(select_images(&images, &f).is_empty());
}

#[test]
fn counts_sorted_by_frequency() {
    let t = count_by_key(&strings(&["png", "jpg", "png", "webp", "png", "jpg"]));
    assert_eq!(t, vec![("png".to_string(), 3), ("jpg".to_string(), 2), ("webp".to_string(), 1)]);
    assert!(count_by_key(&vec![]).is_empty());
}
