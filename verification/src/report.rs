//! Report bookkeeping: metrics, chart labels, format grouping and the
//! choice of the BD-rate baseline codec.
use vstd::prelude::*;
use crate::order::{seq_le, str_le, lemma_seq_le_total, lemma_seq_le_trans, lemma_seq_le_refl};
use crate::cli::corpus::occurrences;

verus! {

/// Which metric to use for analysis.
#[derive(Debug, Clone, Copy, PartialEq, Eq, Structural)]
pub enum Metric {
    Ssimulacra2,
    Dssim,
    Butteraugli,
    Psnr,
}

impl Metric {
    /// The display name of the metric.
    pub open spec fn spec_name(self) -> Seq<char> {
        match self {
            Metric::Ssimulacra2 => "SSIMULACRA2"@,
            Metric::Dssim => "DSSIM"@,
            Metric::Butteraugli => "Butteraugli"@,
            Metric::Psnr => "PSNR"@,
        }
    }

    /// The y-axis label of the metric.
    pub open spec fn spec_y_label(self) -> Seq<char> {
        match self {
            Metric::Ssimulacra2 => "SSIMULACRA2 Score"@,
            Metric::Dssim => "DSSIM (lower is better)"@,
            Metric::Butteraugli => "Butteraugli Distance"@,
            Metric::Psnr => "PSNR (dB)"@,
        }
    }

    /// Get metric name for display.
    pub fn name(&self) -> (r: &'static str)
        ensures
            r@ == self.spec_name(),
    {
        match self {
            Metric::Ssimulacra2 => "SSIMULACRA2",
            Metric::Dssim => "DSSIM",
            Metric::Butteraugli => "Butteraugli",
            Metric::Psnr => "PSNR",
        }
    }

    /// Whether lower values are better for this metric: DSSIM and
    /// Butteraugli are distances, the others are scores.
    pub fn lower_is_better(&self) -> (r: bool)
        ensures
            r == (*self == Metric::Dssim || *self == Metric::Butteraugli),
    {
        match self {
            Metric::Dssim | Metric::Butteraugli => true,
            _ => false,
        }
    }

    /// Get Y-axis label.
    pub fn y_label(&self) -> (r: &'static str)
        ensures
            r@ == self.spec_y_label(),
    {
        match self {
            Metric::Ssimulacra2 => "SSIMULACRA2 Score",
            Metric::Dssim => "DSSIM (lower is better)",
            Metric::Butteraugli => "Butteraugli Distance",
            Metric::Psnr => "PSNR (dB)",
        }
    }
}

/// Generate a comprehensive comparison report.
pub struct ReportGenerator {
    /// Primary metric for Pareto analysis.
    pub primary_metric: Metric,
    /// Output directory.
    pub output_dir: String,
}

impl Default for ReportGenerator {
    fn default() -> (r: Self)
        ensures
            r.primary_metric == Metric::Ssimulacra2,
            r.output_dir@ == "./reports"@,
    {
        ReportGenerator { primary_metric: Metric::Ssimulacra2, output_dir: String::from_str("./reports") }
    }
}

impl ReportGenerator {
    /// Create a new report generator writing to `output_dir`, using
    /// SSIMULACRA2 as the primary metric.
    pub fn new(output_dir: String) -> (r: Self)
        ensures
            r.primary_metric == Metric::Ssimulacra2,
            r.output_dir@ == output_dir@,
    {
        ReportGenerator { output_dir, ..Default::default() }
    }

    /// Set the primary metric.
    pub fn with_metric(self, metric: Metric) -> (r: Self)
        ensures
            r.primary_metric == metric,
            r.output_dir@ == self.output_dir@,
    {
        ReportGenerator { primary_metric: metric, ..self }
    }
}

/// The title of the main Pareto chart.
pub fn pareto_chart_title(metric: Metric) -> (r: String)
    ensures
        r@ == metric.spec_name() + " vs Bits per Pixel"@,
{
    let mut s = String::from_str(metric.name());
    s.append(" vs Bits per Pixel");
    s
}

/// The x-axis label of every chart.
pub fn bpp_axis_label() -> (r: &'static str)
    ensures
        r@ == "Bits per Pixel (BPP) \u{2192}"@,
{
    "Bits per Pixel (BPP) \u{2192}"
}

/// The y-axis label of a chart: a left arrow, then the metric's label.
pub fn metric_axis_label(metric: Metric) -> (r: String)
    ensures
        r@ == "\u{2190} "@ + metric.spec_y_label(),
{
    let mut s = String::from_str("\u{2190} ");
    s.append(metric.y_label());
    s
}

/// The format group that a codec's results are charted with.
#[derive(Debug, Clone, Copy, PartialEq, Eq, Hash, Structural)]
pub enum FormatGroup {
    Avif,
    Jpeg,
    Webp,
    Other,
}

/// Whether `p` is a prefix of `s`.
pub open spec fn is_prefix(p: Seq<char>, s: Seq<char>) -> bool {
    p.len() <= s.len() && s.subrange(0, p.len() as int) == p
}

/// Whether `p` occurs in `s` as a contiguous piece.
pub open spec fn contains_piece(s: Seq<char>, p: Seq<char>) -> bool {
    exists|i: int| 0 <= i && i + p.len() <= s.len() && #[trigger] s.subrange(i, i + p.len()) == p
}

/// The format group of a codec identifier: identifiers that start with
/// "avif" are AVIF; those containing "jpeg" (and mozjpeg, jpegli) are JPEG;
/// "webp" is WebP; everything else is "other".
pub open spec fn spec_format_group(codec: Seq<char>) -> FormatGroup {
    if is_prefix("avif"@, codec) {
        FormatGroup::Avif
    } else if contains_piece(codec, "jpeg"@) || codec == "mozjpeg"@ || codec == "jpegli"@ {
        FormatGroup::Jpeg
    } else if codec == "webp"@ {
        FormatGroup::Webp
    } else {
        FormatGroup::Other
    }
}

fn starts_with(s: &str, p: &str) -> (r: bool)
    ensures
        r == is_prefix(p@, s@),
{
    let n = s.unicode_len();
    let m = p.unicode_len();
    if m > n {
        return false;
    }
    let mut i: usize = 0;
    while i < m
        invariant
            n == s@.len(),
            m == p@.len(),
            m <= n,
            i <= m,
            forall|j: int| 0 <= j < i ==> s@[j] == p@[j],
        decreases m - i,
    {
        if s.get_char(i) != p.get_char(i) {
            assert(s@.subrange(0, m as int)[i as int] != p@[i as int]);
            return false;
        }
        i = i + 1;
    }
    assert(s@.subrange(0, m as int) =~= p@);
    true
}

fn contains_str(s: &str, p: &str) -> (r: bool)
    ensures
        r == contains_piece(s@, p@),
{
    let n = s.unicode_len();
    let m = p.unicode_len();
    if m > n {
        return false;
    }
    if m == 0 {
        assert(s@.subrange(0int, 0int + p@.len()) =~= p@);
        return true;
    }
    let mut i: usize = 0;
    while i <= n - m
        invariant
            n == s@.len(),
            m == p@.len(),
            1 <= m <= n,
            i <= n - m + 1,
            forall|k: int| 0 <= k < i ==> #[trigger] s@.subrange(k, k + m) != p@,
        decreases n - m + 1 - i,
    {
        let piece = s.substring_char(i, i + m);
        if crate::text::str_eq(piece, p) {
            return true;
        }
        i = i + 1;
    }
    proof {
        assert forall|k: int| 0 <= k && k + p@.len() <= s@.len() implies #[trigger] s@.subrange(k, k + p@.len()) != p@ by {
            assert(k < i);
        }
    }
    false
}

/// The format group that `generate_format_charts` puts a codec in.
pub fn format_group(codec: &str) -> (r: FormatGroup)
    ensures
        r == spec_format_group(codec@),
{
    if starts_with(codec, "avif") {
        FormatGroup::Avif
    } else if contains_str(codec, "jpeg") || crate::text::str_eq(codec, "mozjpeg")
        || crate::text::str_eq(codec, "jpegli") {
        FormatGroup::Jpeg
    } else if crate::text::str_eq(codec, "webp") {
        FormatGroup::Webp
    } else {
        FormatGroup::Other
    }
}

impl FormatGroup {
    /// The group's name in lower case.
    pub open spec fn spec_name(self) -> Seq<char> {
        match self {
            FormatGroup::Avif => "avif"@,
            FormatGroup::Jpeg => "jpeg"@,
            FormatGroup::Webp => "webp"@,
            FormatGroup::Other => "other"@,
        }
    }

    /// The group's name in upper case.
    pub open spec fn spec_upper_name(self) -> Seq<char> {
        match self {
            FormatGroup::Avif => "AVIF"@,
            FormatGroup::Jpeg => "JPEG"@,
            FormatGroup::Webp => "WEBP"@,
            FormatGroup::Other => "OTHER"@,
        }
    }

    /// The group's name: "avif", "jpeg", "webp" or "other".
    pub fn name(&self) -> (r: &'static str)
        ensures
            r@ == self.spec_name(),
    {
        match self {
            FormatGroup::Avif => "avif",
            FormatGroup::Jpeg => "jpeg",
            FormatGroup::Webp => "webp",
            FormatGroup::Other => "other",
        }
    }

    /// The group's name in upper case, as chart titles show it.
    pub fn upper_name(&self) -> (r: &'static str)
        ensures
            r@ == self.spec_upper_name(),
    {
        match self {
            FormatGroup::Avif => "AVIF",
            FormatGroup::Jpeg => "JPEG",
            FormatGroup::Webp => "WEBP",
            FormatGroup::Other => "OTHER",
        }
    }
}

/// The title of a per-format chart.
pub fn format_chart_title(group: FormatGroup, metric: Metric) -> (r: String)
    ensures
        r@ == group.spec_upper_name() + " Codecs: "@ + metric.spec_name() + " vs BPP"@,
{
    let mut s = String::from_str(group.upper_name());
    s.append(" Codecs: ");
    s.append(metric.name());
    s.append(" vs BPP");
    s
}

/// The file name of a per-format chart.
pub fn format_chart_file_name(group: FormatGroup) -> (r: String)
    ensures
        r@ == "pareto_"@ + group.spec_name() + ".svg"@,
{
    let mut s = String::from_str("pareto_");
    s.append(group.name());
    s.append(".svg");
    s
}

/// The output format of a codec, by its identifier: "avif" for the AVIF
/// encoders, "jxl" for JPEG XL, "webp" for WebP, "jpg" for the JPEG
/// encoders (mozjpeg, jpegli, zenjpeg), and "unknown" for anything else.
pub open spec fn spec_codec_format_label(codec: Seq<char>) -> Seq<char> {
    if is_prefix("avif"@, codec) {
        "avif"@
    } else if is_prefix("jpegxl"@, codec) || is_prefix("jxl"@, codec) {
        "jxl"@
    } else if is_prefix("webp"@, codec) {
        "webp"@
    } else if contains_piece(codec, "jpeg"@) {
        "jpg"@
    } else {
        "unknown"@
    }
}

/// The output format that the statistics give a codec.
pub fn codec_format_label(codec: &str) -> (r: String)
    ensures
        r@ == spec_codec_format_label(codec@),
{
    if starts_with(codec, "avif") {
        String::from_str("avif")
    } else if starts_with(codec, "jpegxl") || starts_with(codec, "jxl") {
        String::from_str("jxl")
    } else if starts_with(codec, "webp") {
        String::from_str("webp")
    } else if contains_str(codec, "jpeg") {
        String::from_str("jpg")
    } else {
        String::from_str("unknown")
    }
}

/// `m` is the least of the sequences in `ids` (and one of them).
pub open spec fn is_least(m: Seq<char>, ids: Seq<Seq<char>>) -> bool {
    &&& exists|i: int| 0 <= i < ids.len() && ids[i] == m
    &&& forall|i: int| 0 <= i < ids.len() ==> seq_le(m, #[trigger] ids[i])
}

/// The views of a sequence of strings.
pub open spec fn string_views(v: Seq<String>) -> Seq<Seq<char>> {
    v.map_values(|s: String| s@)
}

/// The BD-rate baseline: the alphabetically first codec identifier, if any.
pub fn baseline_codec(ids: &Vec<String>) -> (r: Option<String>)
    ensures
        r is None <==> ids@.len() == 0,
        r matches Some(m) ==> is_least(m@, string_views(ids@)),
{
    if ids.len() == 0 {
        return None;
    }
    let ghost views = string_views(ids@);
    let mut best: usize = 0;
    let mut i: usize = 1;
    proof {
        lemma_seq_le_refl(ids@[0]@);
    }
    while i < ids.len()
        invariant
            views == string_views(ids@),
            1 <= i <= ids@.len(),
            best < i,
            forall|j: int| 0 <= j < i ==> seq_le(ids@[best as int]@, #[trigger] ids@[j]@),
        decreases ids@.len() - i,
    {
        if !str_le(ids[best].as_str(), ids[i].as_str()) {
            proof {
                lemma_seq_le_total(ids@[best as int]@, ids@[i as int]@);
                assert forall|j: int| 0 <= j < i + 1 implies seq_le(ids@[i as int]@, #[trigger] ids@[j]@) by {
                    if j < i {
                        lemma_seq_le_trans(ids@[i as int]@, ids@[best as int]@, ids@[j]@);
                    } else {
                        lemma_seq_le_refl(ids@[i as int]@);
                    }
                }
            }
            best = i;
        }
        i = i + 1;
    }
    let m = ids[best].clone();
    proof {
        assert(views[best as int] == m@);
        assert forall|j: int| 0 <= j < views.len() implies seq_le(m@, #[trigger] views[j]) by {
            assert(views[j] == ids@[j]@);
        }
    }
    Some(m)
}


/// The results of one codec in a corpus: its identifier, the position of
/// its first result, and how many results it has.
pub struct CodecGroup {
    pub codec_id: String,
    pub first: usize,
    pub count: usize,
}

/// The identifiers of a sequence of codec groups.
pub open spec fn group_ids(g: Seq<CodecGroup>) -> Seq<Seq<char>> {
    g.map_values(|x: CodecGroup| x.codec_id@)
}

/// Every identifier sorts strictly before the ones after it.
#[verifier::opaque]
pub open spec fn ids_ascending(s: Seq<Seq<char>>) -> bool {
    forall|a: int, b: int| #![trigger s[a], s[b]] 0 <= a < b < s.len() ==> seq_le(s[a], s[b]) && s[a] != s[b]
}

/// `f` is the position of the first occurrence of `k` in `ids`.
pub open spec fn first_position(ids: Seq<Seq<char>>, k: Seq<char>, f: int) -> bool {
    &&& 0 <= f < ids.len()
    &&& ids[f] == k
    &&& forall|t: int| 0 <= t < f ==> ids[t] != k
}

/// Whether `g` groups the results with identifiers `ids` by codec: one
/// entry per distinct identifier, in ascending order, each with the
/// position of its first result and its number of results.
pub open spec fn groups_results(ids: Seq<Seq<char>>, g: Seq<CodecGroup>) -> bool {
    &&& ids_ascending(group_ids(g))
    &&& forall|j: int|
        #![trigger g[j]]
        0 <= j < g.len() ==> first_position(ids, g[j].codec_id@, g[j].first as int) && g[j].count == occurrences(
            ids,
            g[j].codec_id@,
        )
    &&& forall|t: int| #![trigger ids[t]] 0 <= t < ids.len() ==> group_ids(g).contains(ids[t])
}

/// Group the results of a corpus by codec, given each result's codec
/// identifier in order: the codecs in ascending order of identifier, each
/// with its first result and its number of results.
pub fn codec_groups(ids: &Vec<String>) -> (r: Vec<CodecGroup>)
    ensures
        groups_results(string_views(ids@), r@),
{
    let ghost v = string_views(ids@);
    let mut g: Vec<CodecGroup> = Vec::new();
    let mut i: usize = 0;
    proof {
        reveal(ids_ascending);
        assert(group_ids(g@) =~= Seq::<Seq<char>>::empty());
    }
    while i < ids.len()
        invariant
            v == string_views(ids@),
            i <= ids@.len(),
            groups_results(v.take(i as int), g@),
        decreases ids@.len() - i,
    {
        let ghost p = v.take(i as int);
        let ghost key = v[i as int];
        let ghost g0 = g@;
        assert(v.take(i + 1) =~= p.push(key));
        assert(ids@[i as int]@ == key);
        let mut a: usize = 0;
        let mut found = false;
        while a < g.len()
            invariant_except_break
                !found,
            invariant
                g@ == g0,
                a <= g0.len(),
                i < ids@.len(),
                ids@[i as int]@ == key,
                forall|b: int| 0 <= b < a ==> #[trigger] g0[b].codec_id@ != key,
            ensures
                g@ == g0,
                found ==> a < g0.len() && g0[a as int].codec_id@ == key,
                !found ==> forall|b: int| 0 <= b < g0.len() ==> #[trigger] g0[b].codec_id@ != key,
            decreases g0.len() - a,
        {
            if crate::text::str_eq(g[a].codec_id.as_str(), ids[i].as_str()) {
                found = true;
                break;
            }
            a = a + 1;
        }
        if found {
            let old_count = g[a].count;
            proof {
                assert(g0[a as int].count == occurrences(p, key));
                crate::cli::corpus::lemma_occurrences_bound(p, key);
            }
            let entry = CodecGroup { codec_id: g[a].codec_id.clone(), first: g[a].first, count: old_count + 1 };
            g.set(a, entry);
            proof {
                lemma_group_counted(p, key, g0, g@, a as int);
            }
        } else {
            let mut pos: usize = 0;
            while pos < g.len()
                invariant
                    g@ == g0,
                    pos <= g0.len(),
                    i < ids@.len(),
                    ids@[i as int]@ == key,
                    forall|b: int| 0 <= b < pos ==> seq_le(#[trigger] g0[b].codec_id@, key),
                ensures
                    g@ == g0,
                    pos <= g0.len(),
                    forall|b: int| 0 <= b < pos ==> seq_le(#[trigger] g0[b].codec_id@, key),
                    pos < g0.len() ==> !seq_le(g0[pos as int].codec_id@, key),
                decreases g0.len() - pos,
            {
                if !str_le(g[pos].codec_id.as_str(), ids[i].as_str()) {
                    break;
                }
                pos = pos + 1;
            }
            proof {
                if pos < g0.len() {
                    lemma_seq_le_total(g0[pos as int].codec_id@, key);
                }
            }
            let entry = CodecGroup { codec_id: ids[i].clone(), first: i, count: 1 };
            g.insert(pos, entry);
            proof {
                lemma_group_added(p, key, g0, g@, pos as int);
            }
        }
        i = i + 1;
    }
    assert(v.take(i as int) =~= v);
    g
}

/// Counting one more result of a codec that is already grouped.
proof fn lemma_group_counted(p: Seq<Seq<char>>, key: Seq<char>, g0: Seq<CodecGroup>, ng: Seq<CodecGroup>, a: int)
    requires
        groups_results(p, g0),
        0 <= a < g0.len(),
        g0[a].codec_id@ == key,
        ng.len() == g0.len(),
        forall|j: int| 0 <= j < g0.len() && j != a ==> ng[j] == g0[j],
        ng[a].codec_id@ == key,
        ng[a].first == g0[a].first,
        ng[a].count == g0[a].count + 1,
    ensures
        groups_results(p.push(key), ng),
{
    let q = p.push(key);
    assert forall|j: int| 0 <= j < g0.len() && j != a implies #[trigger] g0[j].codec_id@ != key by {
        reveal(ids_ascending);
        let s = group_ids(g0);
        assert(s[j] == g0[j].codec_id@ && s[a] == key);
        if j < a {
            assert(s[j] != s[a]);
        } else {
            assert(s[a] != s[j]);
        }
    }
    assert(group_ids(ng) =~= group_ids(g0)) by {
        assert forall|j: int| 0 <= j < ng.len() implies group_ids(ng)[j] == group_ids(g0)[j] by {
            if j != a {
                assert(ng[j] == g0[j]);
            }
        }
    }
    assert forall|t: int| #![trigger q[t]] 0 <= t < q.len() implies group_ids(ng).contains(q[t]) by {
        if t < p.len() {
            assert(q[t] == p[t]);
        } else {
            assert(group_ids(ng)[a] == q[t]);
        }
    }
    assert forall|j: int| #![trigger ng[j]] 0 <= j < ng.len() implies first_position(q, ng[j].codec_id@, ng[j].first as int)
        && ng[j].count == occurrences(q, ng[j].codec_id@) by {
        if j != a {
            assert(ng[j] == g0[j]);
        }
        assert(first_position(p, g0[j].codec_id@, g0[j].first as int));
        assert forall|t: int| 0 <= t < ng[j].first implies q[t] != ng[j].codec_id@ by {
            assert(q[t] == p[t]);
        }
        assert(q[ng[j].first as int] == p[ng[j].first as int]);
        crate::cli::corpus::lemma_occurrences_push(p, key, g0[j].codec_id@);
    }
}

/// Inserting an identifier at its place keeps the identifiers ascending.
proof fn lemma_ids_insert_ascending(s: Seq<Seq<char>>, key: Seq<char>, pos: int)
    requires
        ids_ascending(s),
        0 <= pos <= s.len(),
        forall|b: int| 0 <= b < s.len() ==> #[trigger] s[b] != key,
        forall|b: int| 0 <= b < pos ==> seq_le(#[trigger] s[b], key),
        pos < s.len() ==> seq_le(key, s[pos]),
    ensures
        ids_ascending(s.insert(pos, key)),
{
    reveal(ids_ascending);
    let n = s.insert(pos, key);
    assert forall|x: int, y: int| 0 <= x < y < n.len() implies seq_le(n[x], n[y]) && n[x] != n[y] by {
        if y < pos {
            assert(n[x] == s[x] && n[y] == s[y]);
            assert(seq_le(s[x], s[y]) && s[x] != s[y]);
        } else if y == pos {
            assert(n[x] == s[x]);
        } else if x == pos {
            assert(n[y] == s[y - 1]);
            if y - 1 > pos {
                assert(seq_le(s[pos], s[y - 1]));
                lemma_seq_le_trans(key, s[pos], s[y - 1]);
            }
        } else if x < pos {
            assert(n[x] == s[x] && n[y] == s[y - 1]);
            assert(seq_le(s[x], s[y - 1]) && s[x] != s[y - 1]);
        } else {
            assert(n[x] == s[x - 1] && n[y] == s[y - 1]);
            assert(seq_le(s[x - 1], s[y - 1]) && s[x - 1] != s[y - 1]);
        }
    }
}

/// Grouping the first result of a codec not yet grouped, inserted at its
/// place in the order.
proof fn lemma_group_added(p: Seq<Seq<char>>, key: Seq<char>, g0: Seq<CodecGroup>, ng: Seq<CodecGroup>, pos: int)
    requires
        groups_results(p, g0),
        0 <= pos <= g0.len(),
        forall|b: int| 0 <= b < g0.len() ==> #[trigger] g0[b].codec_id@ != key,
        forall|b: int| 0 <= b < pos ==> seq_le(#[trigger] g0[b].codec_id@, key),
        pos < g0.len() ==> seq_le(key, g0[pos].codec_id@),
        ng.len() == g0.len() + 1,
        forall|j: int| 0 <= j < pos ==> ng[j] == g0[j],
        forall|j: int| pos < j < ng.len() ==> ng[j] == g0[j - 1],
        ng[pos].codec_id@ == key,
        ng[pos].first == p.len(),
        ng[pos].count == 1,
    ensures
        groups_results(p.push(key), ng),
{
    let q = p.push(key);
    let s = group_ids(g0);
    assert(group_ids(ng) =~= s.insert(pos, key)) by {
        assert forall|j: int| 0 <= j < ng.len() implies group_ids(ng)[j] == s.insert(pos, key)[j] by {
            if j < pos {
                assert(ng[j] == g0[j]);
            } else if j > pos {
                assert(ng[j] == g0[j - 1]);
            }
        }
    }
    assert forall|b: int| 0 <= b < s.len() implies #[trigger] s[b] != key by {
        assert(s[b] == g0[b].codec_id@);
    }
    assert forall|b: int| 0 <= b < pos implies seq_le(#[trigger] s[b], key) by {
        assert(s[b] == g0[b].codec_id@);
    }
    lemma_ids_insert_ascending(s, key, pos);
    assert(!p.contains(key)) by {
        if p.contains(key) {
            let t = choose|t: int| 0 <= t < p.len() && p[t] == key;
            assert(s.contains(p[t]));
        }
    }
    crate::cli::corpus::lemma_occurrences_absent(p, key);
    crate::cli::corpus::lemma_occurrences_push(p, key, key);
    assert forall|t: int| #![trigger q[t]] 0 <= t < q.len() implies group_ids(ng).contains(q[t]) by {
        if t < p.len() {
            assert(q[t] == p[t]);
            assert(s.contains(p[t]));
            let j = choose|j: int| 0 <= j < s.len() && s[j] == p[t];
            if j < pos {
                assert(group_ids(ng)[j] == q[t]);
            } else {
                assert(group_ids(ng)[j + 1] == q[t]);
            }
        } else {
            assert(group_ids(ng)[pos] == q[t]);
        }
    }
    assert forall|j: int| #![trigger ng[j]] 0 <= j < ng.len() implies first_position(q, ng[j].codec_id@, ng[j].first as int)
        && ng[j].count == occurrences(q, ng[j].codec_id@) by {
        if j == pos {
            assert forall|t: int| 0 <= t < ng[j].first implies q[t] != ng[j].codec_id@ by {
                assert(q[t] == p[t]);
            }
        } else {
            let o = if j < pos { j } else { j - 1 };
            assert(ng[j] == g0[o]);
            assert(g0[o].codec_id@ != key);
            assert(first_position(p, g0[o].codec_id@, g0[o].first as int));
            assert(q[g0[o].first as int] == p[g0[o].first as int]);
            crate::cli::corpus::lemma_occurrences_push(p, key, g0[o].codec_id@);
            assert forall|t: int| 0 <= t < ng[j].first implies q[t] != ng[j].codec_id@ by {
                assert(q[t] == p[t]);
            }
        }
    }
}

} // verus!
