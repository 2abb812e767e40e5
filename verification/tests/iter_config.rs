use codec_compare::cli::iter_config::{
    avif_baseline_key, avif_config_summary, avif_preset_names, baseline_file_name, baseline_path,
    build_jpeg_config, config_summary, expand_tilde, parse_subsampling, quality_levels, subsampling_list,
    sweep_configs, tier_names, xyb_modes, AvifConfig, ChromaSubsampling, JpegConfig, PresetError, QualityPreset,
    XybSubsampling,
};

#[test]
fn preset_names_and_levels() {
    assert_eq!(QualityPreset::Quick.name(), "quick");
    assert_eq!(QualityPreset::Standard.name(), "standard");
    assert_eq!(QualityPreset::Dense.name(), "dense");
    assert_eq!(quality_levels(&QualityPreset::Quick), vec![75, 85, 95]);
    assert_eq!(quality_levels(&QualityPreset::Standard), vec![50, 60, 70, 75, 80, 85, 90, 95]);
    let dense = quality_levels(&QualityPreset::Dense);
    assert_eq!(dense.len(), 25);
    assert_eq!(dense[0], 50);
    assert_eq!(dense[24], 98);
}

#[test]
fn subsampling_names() {
    assert_eq!(parse_subsampling("420"), Some(ChromaSubsampling::Yuv420));
    assert_eq!(parse_subsampling("444"), Some(ChromaSubsampling::Yuv444));
    assert_eq!(parse_subsampling("422"), Some(ChromaSubsampling::Yuv422));
    assert_eq!(parse_subsampling("440"), Some(ChromaSubsampling::Yuv440));
    assert_eq!(parse_subsampling("411"), None);
}

#[test]
fn jpeg_config_and_summary() {
    let d = JpegConfig::default();
    assert_eq!(config_summary(&d), "zenjpeg-420-ycbcr-prog");
    let c = build_jpeg_config(Some("444"), false);
    assert_eq!(c.subsampling, ChromaSubsampling::Yuv444);
    assert_eq!(config_summary(&c), "zenjpeg-444-ycbcr-prog");
    let c = build_jpeg_config(Some("bogus"), true);
    assert_eq!(c.subsampling, ChromaSubsampling::Yuv420);
    assert_eq!(config_summary(&c), "zenjpeg-bq-xyb-prog");
    let c = JpegConfig { xyb: true, xyb_subsampling: XybSubsampling::Full, progressive: false, ..JpegConfig::default() };
    assert_eq!(config_summary(&c), "zenjpeg-full-xyb-base");
    assert_eq!(build_jpeg_config(None, false), JpegConfig::default());
}

#[test]
fn sweep_matrix() {
    let subs = subsampling_list(Some(" 420 ,bad, 444"));
    assert_eq!(subs, vec![ChromaSubsampling::Yuv420, ChromaSubsampling::Yuv444]);
    assert_eq!(subsampling_list(None), vec![ChromaSubsampling::Yuv420, ChromaSubsampling::Yuv444]);
    assert_eq!(xyb_modes(None), vec![false]);
    assert_eq!(xyb_modes(Some("on, off,true,yes,1,no")), vec![true, false, true, true, true, false]);
    let cfgs = sweep_configs(&subs, &vec![false, true]);
    let names: Vec<String> = cfgs.iter().map(config_summary).collect();
    assert_eq!(
        names,
        vec!["zenjpeg-420-ycbcr-prog", "zenjpeg-bq-xyb-prog", "zenjpeg-444-ycbcr-prog", "zenjpeg-bq-xyb-prog"]
    );
}

#[test]
fn avif_presets() {
    let c = AvifConfig::from_preset("baseline").unwrap();
    assert_eq!(avif_config_summary(&c), "ravif-s6-10bit-stock");
    let c = AvifConfig::from_preset("qm").unwrap();
    assert_eq!(avif_config_summary(&c), "ravif-s6-10bit-qm");
    let c = AvifConfig::from_preset("qm-rdotx").unwrap();
    assert_eq!(avif_config_summary(&c), "ravif-s6-10bit-qm+rdotx");
    let c = AvifConfig::from_preset("qm-cdef-rdotx").unwrap();
    assert_eq!(avif_config_summary(&c), "ravif-s6-10bit-qm+rdotx+cdef");
    let c = c.with_overrides(Some(3), true);
    assert_eq!(avif_config_summary(&c), "ravif-s3-8bit-qm+rdotx+cdef");
    let c = AvifConfig::from_preset("qm").unwrap().with_overrides(None, false);
    assert_eq!(c.speed, 6);
    assert!(!c.bit_depth_8);
}

#[test]
fn unknown_avif_preset() {
    match AvifConfig::from_preset("fast") {
        Err(PresetError::UnknownPreset(n)) => assert_eq!(n, "fast"),
        Ok(_) => panic!("expected an error"),
    }
}

#[test]
fn avif_preset_lists_and_keys() {
    assert_eq!(avif_preset_names(None), vec!["baseline", "qm", "qm-rdotx"]);
    assert_eq!(avif_preset_names(Some("qm , qm-rdotx")), vec!["qm", "qm-rdotx"]);
    assert_eq!(avif_baseline_key("qm"), "avif-qm");
}

#[test]
fn baseline_files() {
    assert_eq!(baseline_file_name("jpeg"), "jpeg.json");
    assert_eq!(baseline_path("", "jpeg"), "jpeg.json");
    let p = baseline_path("baselines", "avif-qm");
    assert!(p.ends_with("avif-qm.json"));
    assert_eq!(std::path::Path::new(&p), std::path::Path::new("baselines").join("avif-qm.json"));
    assert_eq!(p, format!("baselines{}avif-qm.json", std::path::MAIN_SEPARATOR));
    assert_eq!(baseline_path("baselines/", "webp"), "baselines/webp.json");
}

#[test]
fn tilde_expansion() {
    assert_eq!(expand_tilde("~/work/x", Some("/home/me")), "/home/me/work/x");
    assert_eq!(expand_tilde("~/work/x", None), "~/work/x");
    assert_eq!(expand_tilde("/abs/~/x", Some("/home/me")), "/abs/~/x");
    assert_eq!(expand_tilde("~", Some("/home/me")), "~");
}

#[test]
fn corpus_tiers() {
    assert_eq!(tier_names(0), Vec::<&str>::new());
    assert_eq!(tier_names(2), vec!["pexels-photo-951408.png", "53435.png"]);
    assert_eq!(tier_names(5).len(), 5);
    assert_eq!(tier_names(5)[4], "2866385.png");
    assert_eq!(tier_names(15).len(), 15);
    assert_eq!(tier_names(15)[14], "162511.png");
    assert_eq!(tier_names(7)[6], "Temperament-pie-chart-according-to-Eysenck.png");
    assert!(tier_names(16).is_empty());
}

#[test]
fn unknown_preset_message() {
    for name in ["QM", " qm", "", "fast"] {
        match AvifConfig::from_preset(name) {
            Err(e) => assert_eq!(
                e.message(),
                format!("Unknown AVIF preset: '{name}'. Available: baseline, qm, qm-rdotx, qm-cdef-rdotx")
            ),
            Ok(_) => panic!("expected an unknown preset"),
        }
    }
}
