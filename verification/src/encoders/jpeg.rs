//! JPEG encoders: MozJPEG and jpegli, each in four variants
//! (4:2:0 or 4:4:4 chroma, progressive or baseline).
use vstd::prelude::*;
use crate::encoders::{package_version, spec_package_version};

verus! {

/// Chroma subsampling mode.
#[derive(Debug, Clone, Copy, PartialEq, Eq, Structural)]
pub enum JpegSubsampling {
    /// 4:4:4 - No chroma subsampling (highest quality, larger files)
    S444,
    /// 4:2:0 - Standard chroma subsampling (good balance)
    S420,
}

impl Default for JpegSubsampling {
    fn default() -> (r: Self)
        ensures
            r == JpegSubsampling::S420,
    {
        JpegSubsampling::S420
    }
}

impl JpegSubsampling {
    /// The identifier suffix of this mode.
    pub open spec fn spec_suffix(self) -> Seq<char> {
        match self {
            JpegSubsampling::S444 => "-444"@,
            JpegSubsampling::S420 => "-420"@,
        }
    }

    /// The identifier suffix of this mode: "-444" or "-420".
    pub fn suffix(&self) -> (r: &'static str)
        ensures
            r@ == self.spec_suffix(),
    {
        match self {
            JpegSubsampling::S444 => "-444",
            JpegSubsampling::S420 => "-420",
        }
    }
}

/// JPEG encoding mode.
#[derive(Debug, Clone, Copy, PartialEq, Eq, Structural)]
pub enum JpegMode {
    /// Progressive encoding with optimized scans
    Progressive,
    /// Baseline (sequential) encoding
    Baseline,
}

impl Default for JpegMode {
    fn default() -> (r: Self)
        ensures
            r == JpegMode::Progressive,
    {
        JpegMode::Progressive
    }
}

impl JpegMode {
    /// The identifier suffix of this mode.
    pub open spec fn spec_suffix(self) -> Seq<char> {
        match self {
            JpegMode::Progressive => "-prog"@,
            JpegMode::Baseline => "-base"@,
        }
    }

    /// The identifier suffix of this mode: "-prog" or "-base".
    pub fn suffix(&self) -> (r: &'static str)
        ensures
            r@ == self.spec_suffix(),
    {
        match self {
            JpegMode::Progressive => "-prog",
            JpegMode::Baseline => "-base",
        }
    }
}

/// What a JPEG codec description holds.
pub struct JpegCodecView {
    pub id: Seq<char>,
    pub version: Seq<char>,
    pub subsampling: JpegSubsampling,
    pub mode: JpegMode,
}

/// The identifier of a JPEG codec variant: the encoder name, then the
/// subsampling suffix, then the mode suffix.
pub open spec fn spec_jpeg_id(name: Seq<char>, subsampling: JpegSubsampling, mode: JpegMode) -> Seq<char> {
    name + subsampling.spec_suffix() + mode.spec_suffix()
}

/// The (subsampling, mode) pairs of the four variants, in the order in which
/// `all_variants` lists them.
pub open spec fn spec_variant(i: int) -> (JpegSubsampling, JpegMode) {
    if i == 0 {
        (JpegSubsampling::S420, JpegMode::Progressive)
    } else if i == 1 {
        (JpegSubsampling::S444, JpegMode::Progressive)
    } else if i == 2 {
        (JpegSubsampling::S420, JpegMode::Baseline)
    } else {
        (JpegSubsampling::S444, JpegMode::Baseline)
    }
}

fn make_id(name: &str, subsampling: JpegSubsampling, mode: JpegMode) -> (r: String)
    ensures
        r@ == spec_jpeg_id(name@, subsampling, mode),
{
    let mut id = String::from_str(name);
    id.append(subsampling.suffix());
    id.append(mode.suffix());
    id
}

/// MozJPEG: Mozilla's optimized JPEG encoder.
pub struct MozJpegCodec {
    version: String,
    subsampling: JpegSubsampling,
    mode: JpegMode,
    id: String,
}

impl View for MozJpegCodec {
    type V = JpegCodecView;

    closed spec fn view(&self) -> JpegCodecView {
        JpegCodecView {
            id: self.id@,
            version: self.version@,
            subsampling: self.subsampling,
            mode: self.mode,
        }
    }
}

/// What `MozJpegCodec::with_config` builds.
pub open spec fn spec_mozjpeg(subsampling: JpegSubsampling, mode: JpegMode) -> JpegCodecView {
    JpegCodecView {
        id: spec_jpeg_id("mozjpeg"@, subsampling, mode),
        version: spec_package_version(),
        subsampling,
        mode,
    }
}

impl MozJpegCodec {
    /// The default variant: 4:2:0, progressive.
    pub fn new() -> (r: Self)
        ensures
            r@ == spec_mozjpeg(JpegSubsampling::S420, JpegMode::Progressive),
    {
        Self::with_config(JpegSubsampling::default(), JpegMode::default())
    }

    /// The variant with the given subsampling and mode; its identifier is
    /// "mozjpeg" followed by both suffixes.
    pub fn with_config(subsampling: JpegSubsampling, mode: JpegMode) -> (r: Self)
        ensures
            r@ == spec_mozjpeg(subsampling, mode),
    {
        let id = make_id("mozjpeg", subsampling, mode);
        MozJpegCodec {
            version: String::from_str(package_version()),
            subsampling,
            mode,
            id,
        }
    }

    /// All four variants of MozJPEG: 420/444 progressive, then 420/444 baseline.
    pub fn all_variants() -> (r: Vec<Self>)
        ensures
            r@.len() == 4,
            forall|i: int| 0 <= i < 4 ==> #[trigger] r@[i]@ == spec_mozjpeg(spec_variant(i).0, spec_variant(i).1),
    {
        let mut v: Vec<Self> = Vec::new();
        v.push(Self::with_config(JpegSubsampling::S420, JpegMode::Progressive));
        v.push(Self::with_config(JpegSubsampling::S444, JpegMode::Progressive));
        v.push(Self::with_config(JpegSubsampling::S420, JpegMode::Baseline));
        v.push(Self::with_config(JpegSubsampling::S444, JpegMode::Baseline));
        v
    }

    /// The codec identifier, e.g. "mozjpeg-420-prog".
    pub fn id(&self) -> (r: &str)
        ensures
            r@ == self@.id,
    {
        self.id.as_str()
    }

    /// The version string.
    pub fn version(&self) -> (r: &str)
        ensures
            r@ == self@.version,
    {
        self.version.as_str()
    }

    /// The output file extension: "jpg".
    pub fn format(&self) -> (r: &'static str)
        ensures
            r@ == "jpg"@,
    {
        "jpg"
    }

    /// The chroma subsampling this variant encodes with.
    pub fn subsampling(&self) -> (r: JpegSubsampling)
        ensures
            r == self@.subsampling,
    {
        self.subsampling
    }

    /// The scan mode this variant encodes with.
    pub fn mode(&self) -> (r: JpegMode)
        ensures
            r == self@.mode,
    {
        self.mode
    }
}

impl Default for MozJpegCodec {
    fn default() -> (r: Self)
        ensures
            r@ == spec_mozjpeg(JpegSubsampling::S420, JpegMode::Progressive),
    {
        Self::new()
    }
}

/// The version reported for jpegli (the jpegli-rs crate version).
pub open spec fn spec_jpegli_version() -> Seq<char> {
    "0.12"@
}

/// jpegli: Google's perceptually-optimized JPEG encoder.
pub struct JpegliCodec {
    version: String,
    subsampling: JpegSubsampling,
    mode: JpegMode,
    id: String,
}

impl View for JpegliCodec {
    type V = JpegCodecView;

    closed spec fn view(&self) -> JpegCodecView {
        JpegCodecView {
            id: self.id@,
            version: self.version@,
            subsampling: self.subsampling,
            mode: self.mode,
        }
    }
}

/// What `JpegliCodec::with_config` builds.
pub open spec fn spec_jpegli(subsampling: JpegSubsampling, mode: JpegMode) -> JpegCodecView {
    JpegCodecView {
        id: spec_jpeg_id("jpegli"@, subsampling, mode),
        version: spec_jpegli_version(),
        subsampling,
        mode,
    }
}

impl JpegliCodec {
    /// The default variant: 4:2:0, progressive.
    pub fn new() -> (r: Self)
        ensures
            r@ == spec_jpegli(JpegSubsampling::S420, JpegMode::Progressive),
    {
        Self::with_config(JpegSubsampling::default(), JpegMode::default())
    }

    /// The variant with the given subsampling and mode; its identifier is
    /// "jpegli" followed by both suffixes.
    pub fn with_config(subsampling: JpegSubsampling, mode: JpegMode) -> (r: Self)
        ensures
            r@ == spec_jpegli(subsampling, mode),
    {
        let id = make_id("jpegli", subsampling, mode);
        JpegliCodec {
            version: String::from_str("0.12"),
            subsampling,
            mode,
            id,
        }
    }

    /// All four variants of jpegli: 420/444 progressive, then 420/444 baseline.
    pub fn all_variants() -> (r: Vec<Self>)
        ensures
            r@.len() == 4,
            forall|i: int| 0 <= i < 4 ==> #[trigger] r@[i]@ == spec_jpegli(spec_variant(i).0, spec_variant(i).1),
    {
        let mut v: Vec<Self> = Vec::new();
        v.push(Self::with_config(JpegSubsampling::S420, JpegMode::Progressive));
        v.push(Self::with_config(JpegSubsampling::S444, JpegMode::Progressive));
        v.push(Self::with_config(JpegSubsampling::S420, JpegMode::Baseline));
        v.push(Self::with_config(JpegSubsampling::S444, JpegMode::Baseline));
        v
    }

    /// The codec identifier, e.g. "jpegli-444-base".
    pub fn id(&self) -> (r: &str)
        ensures
            r@ == self@.id,
    {
        self.id.as_str()
    }

    /// The version string.
    pub fn version(&self) -> (r: &str)
        ensures
            r@ == self@.version,
    {
        self.version.as_str()
    }

    /// The output file extension: "jpg".
    pub fn format(&self) -> (r: &'static str)
        ensures
            r@ == "jpg"@,
    {
        "jpg"
    }

    /// The chroma subsampling this variant encodes with.
    pub fn subsampling(&self) -> (r: JpegSubsampling)
        ensures
            r == self@.subsampling,
    {
        self.subsampling
    }

    /// The scan mode this variant encodes with.
    pub fn mode(&self) -> (r: JpegMode)
        ensures
            r == self@.mode,
    {
        self.mode
    }
}

impl Default for JpegliCodec {
    fn default() -> (r: Self)
        ensures
            r@ == spec_jpegli(JpegSubsampling::S420, JpegMode::Progressive),
    {
        Self::new()
    }
}

/// Distinct (subsampling, mode) settings give distinct identifiers, and a
/// MozJPEG identifier never equals a jpegli identifier: registering all
/// eight JPEG variants never registers one identifier twice.
pub proof fn lemma_jpeg_ids_distinct(
    s1: JpegSubsampling,
    m1: JpegMode,
    s2: JpegSubsampling,
    m2: JpegMode,
)
    ensures
        (s1, m1) != (s2, m2) ==> spec_jpeg_id("mozjpeg"@, s1, m1) != spec_jpeg_id("mozjpeg"@, s2, m2),
        (s1, m1) != (s2, m2) ==> spec_jpeg_id("jpegli"@, s1, m1) != spec_jpeg_id("jpegli"@, s2, m2),
        spec_jpeg_id("mozjpeg"@, s1, m1) != spec_jpeg_id("jpegli"@, s2, m2),
{
    reveal_strlit("mozjpeg");
    reveal_strlit("jpegli");
    reveal_strlit("-444");
    reveal_strlit("-420");
    reveal_strlit("-prog");
    reveal_strlit("-base");
    let a = spec_jpeg_id("mozjpeg"@, s1, m1);
    let b = spec_jpeg_id("mozjpeg"@, s2, m2);
    let c = spec_jpeg_id("jpegli"@, s1, m1);
    let d = spec_jpeg_id("jpegli"@, s2, m2);
    if s1 != s2 {
        assert(a[9] != b[9]);
        assert(c[8] != d[8]);
    } else if m1 != m2 {
        assert(a[12] != b[12]);
        assert(c[11] != d[11]);
    }
    let e = spec_jpeg_id("jpegli"@, s2, m2);
    assert(a[0] != e[0]);
}

} // verus!
