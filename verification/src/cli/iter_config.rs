//! Configuration of the codec iteration tool: quality presets, JPEG and AVIF
//! encoder settings with their summaries, sweep matrices, baseline files and
//! the source images of each corpus tier.
use vstd::prelude::*;
use crate::text::{decimal, push_decimal, split, split_str, str_eq, str_views, trim, trim_str};
use crate::cli::sweep_args::{quality_steps, spec_quality_steps};

verus! {

/// Quality preset.
#[derive(Debug, Clone, Copy, PartialEq, Eq, Structural)]
pub enum QualityPreset {
    Quick,
    Standard,
    Dense,
}

impl QualityPreset {
    /// The preset's name.
    pub open spec fn spec_name(self) -> Seq<char> {
        match self {
            QualityPreset::Quick => "quick"@,
            QualityPreset::Standard => "standard"@,
            QualityPreset::Dense => "dense"@,
        }
    }

    /// The preset's name, as it is displayed and given on the command line.
    pub fn name(&self) -> (r: &'static str)
        ensures
            r@ == self.spec_name(),
    {
        match self {
            QualityPreset::Quick => "quick",
            QualityPreset::Standard => "standard",
            QualityPreset::Dense => "dense",
        }
    }
}

/// The quality levels of a preset.
pub open spec fn spec_quality_levels(preset: QualityPreset) -> Seq<u8> {
    match preset {
        QualityPreset::Quick => seq![75u8, 85, 95],
        QualityPreset::Standard => seq![50u8, 60, 70, 75, 80, 85, 90, 95],
        QualityPreset::Dense => spec_quality_steps(50, 98, 2),
    }
}

/// The quality levels of a preset: three for quick, eight for standard, and
/// every even quality from 50 to 98 for dense.
pub fn quality_levels(preset: &QualityPreset) -> (r: Vec<u8>)
    ensures
        r@ == spec_quality_levels(*preset),
{
    match preset {
        QualityPreset::Quick => {
            let v: Vec<u8> = vec![75, 85, 95];
            assert(v@ =~= seq![75u8, 85, 95]);
            v
        },
        QualityPreset::Standard => {
            let v: Vec<u8> = vec![50, 60, 70, 75, 80, 85, 90, 95];
            assert(v@ =~= seq![50u8, 60, 70, 75, 80, 85, 90, 95]);
            v
        },
        QualityPreset::Dense => quality_steps(50, 98, 2),
    }
}

/// YCbCr chroma subsampling.
#[derive(Debug, Clone, Copy, PartialEq, Eq, Structural)]
pub enum ChromaSubsampling {
    /// 4:4:4 - no subsampling
    Yuv444,
    /// 4:2:2 - half horizontal resolution
    Yuv422,
    /// 4:2:0 - quarter resolution
    Yuv420,
    /// 4:4:0 - half vertical resolution
    Yuv440,
}

/// Subsampling of the B channel in XYB mode.
#[derive(Debug, Clone, Copy, PartialEq, Eq, Structural)]
pub enum XybSubsampling {
    Full,
    BQuarter,
}

/// The subsampling that a command-line name selects.
pub open spec fn spec_parse_subsampling(s: Seq<char>) -> Option<ChromaSubsampling> {
    if s == "420"@ {
        Some(ChromaSubsampling::Yuv420)
    } else if s == "444"@ {
        Some(ChromaSubsampling::Yuv444)
    } else if s == "422"@ {
        Some(ChromaSubsampling::Yuv422)
    } else if s == "440"@ {
        Some(ChromaSubsampling::Yuv440)
    } else {
        None
    }
}

/// Parse a subsampling name: "420", "444", "422" or "440".
pub fn parse_subsampling(s: &str) -> (r: Option<ChromaSubsampling>)
    ensures
        r == spec_parse_subsampling(s@),
{
    if str_eq(s, "420") {
        Some(ChromaSubsampling::Yuv420)
    } else if str_eq(s, "444") {
        Some(ChromaSubsampling::Yuv444)
    } else if str_eq(s, "422") {
        Some(ChromaSubsampling::Yuv422)
    } else if str_eq(s, "440") {
        Some(ChromaSubsampling::Yuv440)
    } else {
        None
    }
}

/// A zenjpeg encoder configuration.
#[derive(Debug, Clone, Copy, PartialEq, Eq, Structural)]
pub struct JpegConfig {
    pub subsampling: ChromaSubsampling,
    pub xyb: bool,
    pub xyb_subsampling: XybSubsampling,
    pub progressive: bool,
}

/// The default configuration: 4:2:0 YCbCr, progressive.
pub open spec fn spec_default_jpeg_config() -> JpegConfig {
    JpegConfig {
        subsampling: ChromaSubsampling::Yuv420,
        xyb: false,
        xyb_subsampling: XybSubsampling::BQuarter,
        progressive: true,
    }
}

impl Default for JpegConfig {
    fn default() -> (r: Self)
        ensures
            r == spec_default_jpeg_config(),
    {
        JpegConfig {
            subsampling: ChromaSubsampling::Yuv420,
            xyb: false,
            xyb_subsampling: XybSubsampling::BQuarter,
            progressive: true,
        }
    }
}

/// The summary of a JPEG configuration, "zenjpeg-{sub}-{color}-{prog|base}".
pub open spec fn spec_config_summary(c: JpegConfig) -> Seq<char> {
    let color = if c.xyb { "xyb"@ } else { "ycbcr"@ };
    let sub = if c.xyb {
        match c.xyb_subsampling {
            XybSubsampling::Full => "full"@,
            XybSubsampling::BQuarter => "bq"@,
        }
    } else {
        match c.subsampling {
            ChromaSubsampling::Yuv444 => "444"@,
            ChromaSubsampling::Yuv420 => "420"@,
            ChromaSubsampling::Yuv422 => "422"@,
            ChromaSubsampling::Yuv440 => "440"@,
        }
    };
    let prog = if c.progressive { "prog"@ } else { "base"@ };
    "zenjpeg-"@ + sub + "-"@ + color + "-"@ + prog
}

/// Summarize a JPEG configuration, e.g. "zenjpeg-420-ycbcr-prog".
pub fn config_summary(config: &JpegConfig) -> (r: String)
    ensures
        r@ == spec_config_summary(*config),
{
    let color = if config.xyb { "xyb" } else { "ycbcr" };
    let sub = if config.xyb {
        match config.xyb_subsampling {
            XybSubsampling::Full => "full",
            XybSubsampling::BQuarter => "bq",
        }
    } else {
        match config.subsampling {
            ChromaSubsampling::Yuv444 => "444",
            ChromaSubsampling::Yuv420 => "420",
            ChromaSubsampling::Yuv422 => "422",
            ChromaSubsampling::Yuv440 => "440",
        }
    };
    let prog = if config.progressive { "prog" } else { "base" };
    let mut s = String::from_str("zenjpeg-");
    s.append(sub);
    s.append("-");
    s.append(color);
    s.append("-");
    s.append(prog);
    s
}

/// The configuration that the eval command builds: the named subsampling
/// (4:2:0 when absent or unknown), XYB as asked, the rest default.
pub fn build_jpeg_config(subsampling: Option<&str>, xyb: bool) -> (r: JpegConfig)
    ensures
        r == (JpegConfig {
            subsampling: match subsampling {
                Some(s) => match spec_parse_subsampling(s@) {
                    Some(v) => v,
                    None => ChromaSubsampling::Yuv420,
                },
                None => ChromaSubsampling::Yuv420,
            },
            xyb,
            ..spec_default_jpeg_config()
        }),
{
    let sub = match subsampling {
        Some(s) => match parse_subsampling(s) {
            Some(v) => v,
            None => ChromaSubsampling::Yuv420,
        },
        None => ChromaSubsampling::Yuv420,
    };
    JpegConfig { subsampling: sub, xyb, ..Default::default() }
}

/// The pieces of an optional comma-separated list, trimmed; `default` stands
/// in for an absent list.
pub open spec fn list_items(s: Option<Seq<char>>, default: Seq<char>) -> Seq<Seq<char>> {
    let text = match s { Some(t) => t, None => default };
    split(text, ',').map_values(|p: Seq<char>| trim(p))
}

fn list_items_exec<'a>(s: Option<&'a str>, default: &'a str) -> (r: Vec<&'a str>)
    ensures
        str_views(r@) == list_items(match s { Some(t) => Some(t@), None => None }, default@),
{
    let text = match s { Some(t) => t, None => default };
    let pieces = split_str(text, ',');
    let mut out: Vec<&str> = Vec::new();
    let mut i: usize = 0;
    while i < pieces.len()
        invariant
            str_views(pieces@) == split(text@, ','),
            i <= pieces@.len(),
            str_views(out@) == split(text@, ',').subrange(0, i as int).map_values(|p: Seq<char>| trim(p)),
        decreases pieces@.len() - i,
    {
        let t = trim_str(pieces[i]);
        let ghost before = out@;
        out.push(t);
        proof {
            assert(str_views(pieces@)[i as int] == pieces@[i as int]@);
            assert(str_views(out@) =~= str_views(before).push(t@));
            assert(split(text@, ',').subrange(0, i + 1).map_values(|p: Seq<char>| trim(p))
                =~= split(text@, ',').subrange(0, i as int).map_values(|p: Seq<char>| trim(p)).push(t@));
        }
        i = i + 1;
    }
    assert(split(text@, ',').subrange(0, i as int) =~= split(text@, ','));
    out
}

/// The subsamplings of a sweep, in list order; unknown names are skipped.
pub open spec fn spec_subsampling_list(items: Seq<Seq<char>>) -> Seq<ChromaSubsampling>
    decreases items.len(),
{
    if items.len() == 0 {
        Seq::empty()
    } else {
        let rest = spec_subsampling_list(items.drop_last());
        match spec_parse_subsampling(items.last()) {
            Some(v) => rest.push(v),
            None => rest,
        }
    }
}

/// The subsamplings that a sweep runs: the comma-separated names given
/// ("420,444" by default), each trimmed, unknown names skipped.
pub fn subsampling_list(s: Option<&str>) -> (r: Vec<ChromaSubsampling>)
    ensures
        r@ == spec_subsampling_list(list_items(match s { Some(t) => Some(t@), None => None }, "420,444"@)),
{
    let items = list_items_exec(s, "420,444");
    let ghost all = str_views(items@);
    let mut out: Vec<ChromaSubsampling> = Vec::new();
    let mut i: usize = 0;
    while i < items.len()
        invariant
            all == str_views(items@),
            i <= items@.len(),
            out@ == spec_subsampling_list(all.subrange(0, i as int)),
        decreases items@.len() - i,
    {
        proof {
            assert(all.subrange(0, i + 1).drop_last() =~= all.subrange(0, i as int));
            assert(all[i as int] == items@[i as int]@);
        }
        match parse_subsampling(items[i]) {
            Some(v) => out.push(v),
            None => {},
        }
        i = i + 1;
    }
    assert(all.subrange(0, i as int) =~= all);
    out
}

/// Whether a sweep's XYB item turns XYB on: "on", "true", "yes" or "1".
pub open spec fn is_on(w: Seq<char>) -> bool {
    w == "on"@ || w == "true"@ || w == "yes"@ || w == "1"@
}

/// The XYB modes that a sweep runs: one per comma-separated item of the
/// list ("off" by default), on for "on", "true", "yes" or "1".
pub fn xyb_modes(s: Option<&str>) -> (r: Vec<bool>)
    ensures
        r@ == list_items(match s { Some(t) => Some(t@), None => None }, "off"@).map_values(|w: Seq<char>| is_on(w)),
{
    let items = list_items_exec(s, "off");
    let ghost all = str_views(items@);
    let mut out: Vec<bool> = Vec::new();
    let mut i: usize = 0;
    while i < items.len()
        invariant
            all == str_views(items@),
            i <= items@.len(),
            out@ == all.subrange(0, i as int).map_values(|w: Seq<char>| is_on(w)),
        decreases items@.len() - i,
    {
        let w = items[i];
        let on = str_eq(w, "on") || str_eq(w, "true") || str_eq(w, "yes") || str_eq(w, "1");
        proof {
            assert(all[i as int] == w@);
        }
        out.push(on);
        assert(out@ =~= all.subrange(0, i + 1).map_values(|w: Seq<char>| is_on(w)));
        i = i + 1;
    }
    assert(all.subrange(0, i as int) =~= all);
    out
}

/// The configurations of a JPEG sweep: for each subsampling in order, one
/// configuration per XYB mode in order, the rest default.
pub fn sweep_configs(subsamplings: &Vec<ChromaSubsampling>, xyb_modes: &Vec<bool>) -> (r: Vec<JpegConfig>)
    ensures
        r@.len() == subsamplings@.len() * xyb_modes@.len(),
        forall|a: int, b: int| 0 <= a < subsamplings@.len() && 0 <= b < xyb_modes@.len() ==>
            #[trigger] r@[a * xyb_modes@.len() + b] == (JpegConfig {
                subsampling: subsamplings@[a],
                xyb: xyb_modes@[b],
                ..spec_default_jpeg_config()
            }),
{
    let n = subsamplings.len();
    let m = xyb_modes.len();
    let mut out: Vec<JpegConfig> = Vec::new();
    let mut a: usize = 0;
    while a < n
        invariant
            n == subsamplings@.len(),
            m == xyb_modes@.len(),
            a <= n,
            out@.len() == a * m,
            forall|x: int, y: int| 0 <= x < a && 0 <= y < m ==>
                #[trigger] out@[x * m + y] == (JpegConfig {
                    subsampling: subsamplings@[x],
                    xyb: xyb_modes@[y],
                    ..spec_default_jpeg_config()
                }),
        decreases n - a,
    {
        let mut b: usize = 0;
        while b < m
            invariant
                n == subsamplings@.len(),
                m == xyb_modes@.len(),
                a < n,
                b <= m,
                out@.len() == a * m + b,
                forall|x: int, y: int| 0 <= x < a && 0 <= y < m ==>
                    #[trigger] out@[x * m + y] == (JpegConfig {
                        subsampling: subsamplings@[x],
                        xyb: xyb_modes@[y],
                        ..spec_default_jpeg_config()
                    }),
                forall|y: int| 0 <= y < b ==>
                    #[trigger] out@[a * m + y] == (JpegConfig {
                        subsampling: subsamplings@[a as int],
                        xyb: xyb_modes@[y],
                        ..spec_default_jpeg_config()
                    }),
            decreases m - b,
        {
            let cfg = JpegConfig { subsampling: subsamplings[a], xyb: xyb_modes[b], ..Default::default() };
            out.push(cfg);
            proof {
                assert forall|x: int, y: int| 0 <= x < a && 0 <= y < m implies
                    #[trigger] out@[x * m + y] == (JpegConfig {
                        subsampling: subsamplings@[x],
                        xyb: xyb_modes@[y],
                        ..spec_default_jpeg_config()
                    }) by {
                    assert(x * m + y < a * m) by (nonlinear_arith)
                        requires
                            0 <= x < a,
                            0 <= y < m,
                    ;
                }
            }
            b = b + 1;
        }
        proof {
            assert forall|x: int, y: int| 0 <= x < a + 1 && 0 <= y < m implies
                #[trigger] out@[x * m + y] == (JpegConfig {
                    subsampling: subsamplings@[x],
                    xyb: xyb_modes@[y],
                    ..spec_default_jpeg_config()
                }) by {
                if x == a {
                    assert(out@[a * m + y] == out@[x * m + y]);
                }
            }
            assert((a + 1) * m == a * m + m) by (nonlinear_arith);
        }
        a = a + 1;
    }
    out
}


/// AVIF encoder configuration.
#[derive(Debug, Clone, Copy, PartialEq, Eq, Structural)]
pub struct AvifConfig {
    pub speed: u8,
    pub enable_qm: bool,
    pub rdo_tx: Option<bool>,
    pub cdef: Option<bool>,
    pub bit_depth_8: bool,
}

/// An AVIF preset name that is not known.
#[derive(Debug)]
pub enum PresetError {
    UnknownPreset(String),
}

impl PresetError {
    /// The message that reports the error: the name in quotes, and the
    /// presets there are.
    pub fn message(&self) -> (r: String)
        ensures
            r@ == match self {
                PresetError::UnknownPreset(n) => "Unknown AVIF preset: '"@ + n@
                    + "'. Available: baseline, qm, qm-rdotx, qm-cdef-rdotx"@,
            },
    {
        match self {
            PresetError::UnknownPreset(n) => {
                let mut s = String::from_str("Unknown AVIF preset: '");
                s.append(n.as_str());
                s.append("'. Available: baseline, qm, qm-rdotx, qm-cdef-rdotx");
                s
            },
        }
    }
}

/// The configuration of a named AVIF preset, if the name is known: all run
/// at speed 6 with automatic bit depth; "baseline" is stock ravif, "qm" adds
/// quantization matrices, "qm-rdotx" also the RDO transform decision, and
/// "qm-cdef-rdotx" also CDEF.
pub open spec fn spec_avif_preset(name: Seq<char>) -> Option<AvifConfig> {
    if name == "baseline"@ {
        Some(AvifConfig { speed: 6, enable_qm: false, rdo_tx: None, cdef: None, bit_depth_8: false })
    } else if name == "qm"@ {
        Some(AvifConfig { speed: 6, enable_qm: true, rdo_tx: None, cdef: None, bit_depth_8: false })
    } else if name == "qm-rdotx"@ {
        Some(AvifConfig { speed: 6, enable_qm: true, rdo_tx: Some(true), cdef: None, bit_depth_8: false })
    } else if name == "qm-cdef-rdotx"@ {
        Some(AvifConfig { speed: 6, enable_qm: true, rdo_tx: Some(true), cdef: Some(true), bit_depth_8: false })
    } else {
        None
    }
}

/// The features of a configuration, in summary order.
pub open spec fn avif_features(c: AvifConfig) -> Seq<Seq<char>> {
    (if c.enable_qm { seq!["qm"@] } else { Seq::empty() })
        + (if c.rdo_tx == Some(true) { seq!["rdotx"@] } else { Seq::empty() })
        + (if c.cdef == Some(true) { seq!["cdef"@] } else { Seq::empty() })
}

/// The items of `s` joined with "+".
pub open spec fn join_plus(s: Seq<Seq<char>>) -> Seq<char>
    decreases s.len(),
{
    if s.len() == 0 {
        Seq::empty()
    } else if s.len() == 1 {
        s[0]
    } else {
        join_plus(s.drop_last()) + "+"@ + s.last()
    }
}

/// The summary of an AVIF configuration, "ravif-s{speed}-{8bit|10bit}-{features}",
/// the features joined with '+' or "stock" when there are none.
pub open spec fn spec_avif_config_summary(c: AvifConfig) -> Seq<char> {
    let depth = if c.bit_depth_8 { "8bit"@ } else { "10bit"@ };
    let feats = avif_features(c);
    let feat_str = if feats.len() == 0 { "stock"@ } else { join_plus(feats) };
    "ravif-s"@ + decimal(c.speed as nat) + "-"@ + depth + "-"@ + feat_str
}

impl AvifConfig {
    /// Create config from a named preset.
    pub fn from_preset(name: &str) -> (r: Result<AvifConfig, PresetError>)
        ensures
            match (r, spec_avif_preset(name@)) {
                (Ok(c), Some(d)) => c == d,
                (Err(PresetError::UnknownPreset(n)), None) => n@ == name@,
                _ => false,
            },
    {
        if str_eq(name, "baseline") {
            Ok(AvifConfig { speed: 6, enable_qm: false, rdo_tx: None, cdef: None, bit_depth_8: false })
        } else if str_eq(name, "qm") {
            Ok(AvifConfig { speed: 6, enable_qm: true, rdo_tx: None, cdef: None, bit_depth_8: false })
        } else if str_eq(name, "qm-rdotx") {
            Ok(AvifConfig { speed: 6, enable_qm: true, rdo_tx: Some(true), cdef: None, bit_depth_8: false })
        } else if str_eq(name, "qm-cdef-rdotx") {
            Ok(AvifConfig { speed: 6, enable_qm: true, rdo_tx: Some(true), cdef: Some(true), bit_depth_8: false })
        } else {
            Err(PresetError::UnknownPreset(String::from_str(name)))
        }
    }

    /// The configuration with the command-line overrides applied: a given
    /// speed replaces the preset's, and forcing 8-bit sets the bit depth.
    pub fn with_overrides(self, speed: Option<u8>, force_8bit: bool) -> (r: AvifConfig)
        ensures
            r == (AvifConfig {
                speed: match speed { Some(v) => v, None => self.speed },
                bit_depth_8: self.bit_depth_8 || force_8bit,
                ..self
            }),
    {
        let mut c = self;
        if let Some(v) = speed {
            c.speed = v;
        }
        if force_8bit {
            c.bit_depth_8 = true;
        }
        c
    }
}

/// Summarize an AVIF configuration, e.g. "ravif-s6-10bit-qm+rdotx".
pub fn avif_config_summary(config: &AvifConfig) -> (r: String)
    ensures
        r@ == spec_avif_config_summary(*config),
{
    let mut s = String::from_str("ravif-s");
    push_decimal(&mut s, config.speed as u128);
    s.append("-");
    s.append(if config.bit_depth_8 { "8bit" } else { "10bit" });
    s.append("-");
    let ghost feats = avif_features(*config);
    let mut count: usize = 0;
    let ghost mut done: Seq<Seq<char>> = Seq::empty();
    let ghost prefix = s@;
    if config.enable_qm {
        s.append("qm");
        count = count + 1;
        proof { done = done.push("qm"@); }
    }
    assert(done.len() == count);
    assert(s@ == prefix + join_plus(done)) by {
        if done.len() == 1 {
            assert(s@ =~= prefix + join_plus(done));
        } else {
            assert(s@ =~= prefix + join_plus(done));
        }
    }
    if config.rdo_tx == Some(true) {
        if count > 0 {
            s.append("+");
        }
        s.append("rdotx");
        proof {
            let d2 = done.push("rdotx"@);
            assert(d2.drop_last() =~= done);
            done = d2;
        }
        count = count + 1;
        assert(s@ =~= prefix + join_plus(done));
    }
    if config.cdef == Some(true) {
        if count > 0 {
            s.append("+");
        }
        s.append("cdef");
        proof {
            let d2 = done.push("cdef"@);
            assert(d2.drop_last() =~= done);
            done = d2;
        }
        count = count + 1;
        assert(s@ =~= prefix + join_plus(done));
    }
    assert(done =~= feats);
    if count == 0 {
        s.append("stock");
    }
    assert(s@ =~= spec_avif_config_summary(*config));
    s
}

/// The AVIF presets that a sweep runs: the comma-separated names given
/// ("baseline,qm,qm-rdotx" by default), each trimmed.
pub fn avif_preset_names(s: Option<&str>) -> (r: Vec<&str>)
    ensures
        str_views(r@) == list_items(match s { Some(t) => Some(t@), None => None }, "baseline,qm,qm-rdotx"@),
{
    list_items_exec(s, "baseline,qm,qm-rdotx")
}

/// The baseline key of an AVIF preset: "avif-" and the preset name.
pub fn avif_baseline_key(preset: &str) -> (r: String)
    ensures
        r@ == "avif-"@ + preset@,
{
    let mut s = String::from_str("avif-");
    s.append(preset);
    s
}

/// Whether `p` ends `s`.
pub open spec fn ends_with(s: Seq<char>, p: Seq<char>) -> bool {
    p.len() <= s.len() && s.subrange(s.len() - p.len(), s.len() as int) == p
}

/// Whether a path text holds no backslash and no ':', so that on every
/// platform it has no prefix (such as a drive or a verbatim prefix).
pub open spec fn no_prefix_chars(p: Seq<char>) -> bool {
    forall|i: int| 0 <= i < p.len() ==> p[i] != '\\' && p[i] != ':'
}

/// Whether a path text is a plain relative one on every platform: not empty,
/// not starting with '/', with no backslash and no ':'.
pub open spec fn plain_relative(p: Seq<char>) -> bool {
    p.len() > 0 && p[0] != '/' && no_prefix_chars(p)
}

/// Calls `Path::join`, giving the path as text. std documents that joining
/// replaces the base when `name` is absolute and otherwise appends `name`,
/// adding the platform's separator ('/', or '\\' on Windows) unless the base
/// is empty or already ends in a separator. Stated here: onto an empty base
/// the result is `name`; onto a base without backslashes the result ends
/// with `name`; and for a plain relative `name` onto a non-empty base
/// without prefix characters, the result is the base, then one separator
/// unless the base ends in '/', then `name`. Which of the two separators is
/// added depends on the platform and is left open.
#[verifier::external_body]
fn path_join(dir: &str, name: &str) -> (r: String)
    ensures
        dir@.len() == 0 ==> r@ == name@,
        (forall|i: int| 0 <= i < dir@.len() ==> dir@[i] != '\\') ==> ends_with(r@, name@),
        no_prefix_chars(dir@) && dir@.len() > 0 && plain_relative(name@) ==> if dir@.last() == '/' {
            r@ == dir@ + name@
        } else {
            r@ == dir@ + seq!['/'] + name@ || r@ == dir@ + seq!['\\'] + name@
        },
{
    std::path::Path::new(dir).join(name).to_string_lossy().into_owned()
}

/// The file name of a baseline: the format key and ".json".
pub fn baseline_file_name(format: &str) -> (r: String)
    ensures
        r@ == format@ + ".json"@,
{
    let mut s = String::from_str(format);
    s.append(".json");
    s
}

/// The path of the baseline file of a format inside `baselines_dir`: the
/// directory, a separator (none where it already ends in '/'), and the
/// file name, for a plain directory and format; in any case a path that
/// ends with the file name.
pub fn baseline_path(baselines_dir: &str, format: &str) -> (r: String)
    ensures
        baselines_dir@.len() == 0 ==> r@ == format@ + ".json"@,
        (forall|i: int| 0 <= i < baselines_dir@.len() ==> baselines_dir@[i] != '\\')
            ==> ends_with(r@, format@ + ".json"@),
        no_prefix_chars(baselines_dir@) && baselines_dir@.len() > 0 && plain_relative(format@ + ".json"@)
            ==> if baselines_dir@.last() == '/' {
            r@ == baselines_dir@ + format@ + ".json"@
        } else {
            r@ == baselines_dir@ + seq!['/'] + format@ + ".json"@ || r@ == baselines_dir@ + seq!['\\'] + format@
                + ".json"@
        },
{
    let name = baseline_file_name(format);
    path_join(baselines_dir, name.as_str())
}

/// `path` with a leading "~/" replaced by the home directory and a '/', when
/// the home directory is known; otherwise `path` unchanged.
pub open spec fn spec_expand_tilde(path: Seq<char>, home: Option<Seq<char>>) -> Seq<char> {
    if path.len() >= 2 && path[0] == '~' && path[1] == '/' && home is Some {
        home.unwrap() + "/"@ + path.subrange(2, path.len() as int)
    } else {
        path
    }
}

/// Expand a leading "~/" in `path` with the home directory `home`.
pub fn expand_tilde(path: &str, home: Option<&str>) -> (r: String)
    ensures
        r@ == spec_expand_tilde(path@, match home { Some(h) => Some(h@), None => None }),
{
    let n = path.unicode_len();
    if n >= 2 && path.get_char(0) == '~' && path.get_char(1) == '/' {
        if let Some(h) = home {
            let mut s = String::from_str(h);
            s.append("/");
            s.append(path.substring_char(2, n));
            return s;
        }
    }
    String::from_str(path)
}

/// The representative images of the tiny corpus tier.
pub open spec fn tiny_tier() -> Seq<Seq<char>> {
    seq!["pexels-photo-951408.png"@, "53435.png"@, "1963557.png"@]
}

/// The representative images of the small corpus tier.
pub open spec fn small_tier() -> Seq<Seq<char>> {
    seq!["pexels-photo-951408.png"@, "53435.png"@, "1963557.png"@, "160577.png"@, "2866385.png"@]
}

/// The representative images of the medium corpus tier.
pub open spec fn medium_tier() -> Seq<Seq<char>> {
    seq![
        "pexels-photo-951408.png"@,
        "pexels-photo-3193731.png"@,
        "pexels-photo-7438498.png"@,
        "53435.png"@,
        "pexels-photo-1130297.png"@,
        "1963557.png"@,
        "Temperament-pie-chart-according-to-Eysenck.png"@,
        "160577.png"@,
        "1277396.png"@,
        "2866385.png"@,
        "1583339.png"@,
        "144200.png"@,
        "pexels-photo-2908983.png"@,
        "1183021.png"@,
        "162511.png"@,
    ]
}

/// The named images that a limit selects: the first `limit` images of the
/// tiny tier for 0-3, of the small tier for 4-5, of the medium tier for
/// 6-15, and none (the whole directory is loaded instead) above 15.
pub open spec fn spec_tier_names(limit: usize) -> Seq<Seq<char>> {
    if limit <= 3 {
        tiny_tier().subrange(0, limit as int)
    } else if limit <= 5 {
        small_tier().subrange(0, limit as int)
    } else if limit <= 15 {
        medium_tier().subrange(0, limit as int)
    } else {
        Seq::empty()
    }
}

fn take_names(names: &[&'static str], limit: usize) -> (r: Vec<&'static str>)
    requires
        limit <= names@.len(),
    ensures
        str_views(r@) == str_views(names@).subrange(0, limit as int),
{
    let mut out: Vec<&'static str> = Vec::new();
    let mut i: usize = 0;
    while i < limit
        invariant
            limit <= names@.len(),
            i <= limit,
            str_views(out@) == str_views(names@).subrange(0, i as int),
        decreases limit - i,
    {
        let ghost before = out@;
        out.push(names[i]);
        assert(str_views(out@) =~= str_views(before).push(names@[i as int]@));
        assert(str_views(names@).subrange(0, i + 1) =~= str_views(names@).subrange(0, i as int).push(names@[i as int]@));
        i = i + 1;
    }
    out
}

/// The representative images to load for a limit (empty when the whole
/// corpus directory is to be loaded).
pub fn tier_names(limit: usize) -> (r: Vec<&'static str>)
    ensures
        str_views(r@) == spec_tier_names(limit),
{
    if limit <= 3 {
        let tiny: [&'static str; 3] = ["pexels-photo-951408.png", "53435.png", "1963557.png"];
        assert(str_views(tiny@) =~= tiny_tier());
        take_names(&tiny, limit)
    } else if limit <= 5 {
        let small: [&'static str; 5] = [
            "pexels-photo-951408.png",
            "53435.png",
            "1963557.png",
            "160577.png",
            "2866385.png",
        ];
        assert(str_views(small@) =~= small_tier());
        take_names(&small, limit)
    } else if limit <= 15 {
        let medium: [&'static str; 15] = [
            "pexels-photo-951408.png",
            "pexels-photo-3193731.png",
            "pexels-photo-7438498.png",
            "53435.png",
            "pexels-photo-1130297.png",
            "1963557.png",
            "Temperament-pie-chart-according-to-Eysenck.png",
            "160577.png",
            "1277396.png",
            "2866385.png",
            "1583339.png",
            "144200.png",
            "pexels-photo-2908983.png",
            "1183021.png",
            "162511.png",
        ];
        assert(str_views(medium@) =~= medium_tier());
        take_names(&medium, limit)
    } else {
        let v: Vec<&'static str> = Vec::new();
        assert(str_views(v@) =~= Seq::<Seq<char>>::empty());
        v
    }
}

} // verus!
