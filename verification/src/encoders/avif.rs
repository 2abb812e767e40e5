//! AVIF encoders (rav1e through ravif) and their tuning variants.
use vstd::prelude::*;
use crate::encoders::{package_version, spec_package_version};

verus! {

/// AVIF encoder selection.
#[derive(Debug, Clone, Copy, PartialEq, Eq, Hash, Structural)]
pub enum AvifEncoder {
    /// rav1e - Pure Rust AV1 encoder (default for native builds)
    Rav1e,
    /// rav1e with all imazen features (QM + VAQ + StillImage)
    Rav1eImazen,
    /// rav1e with QM only
    Rav1eQmOnly,
    /// rav1e with VAQ only
    Rav1eVaqOnly,
    /// rav1e with StillImage tuning only
    Rav1eStillOnly,
}

/// The encoder variants that `AvifEncoder::all` lists, in order.
pub open spec fn spec_all_avif_encoders() -> Seq<AvifEncoder> {
    seq![
        AvifEncoder::Rav1e,
        AvifEncoder::Rav1eImazen,
        AvifEncoder::Rav1eQmOnly,
        AvifEncoder::Rav1eVaqOnly,
        AvifEncoder::Rav1eStillOnly,
    ]
}

/// The encoder variants that the published ravif encoder can run as they
/// are meant: those whose tuning needs none of the imazen knobs
/// (quantization matrices, variance boost, still-image tuning), which its
/// API does not offer. Only plain rav1e.
pub open spec fn spec_supported_avif_encoders() -> Seq<AvifEncoder> {
    seq![AvifEncoder::Rav1e]
}

/// Whether a tuning turns none of the imazen knobs on.
pub open spec fn is_plain_tuning(t: AvifTuning) -> bool {
    !t.qm && !t.vaq && !t.still_image
}

/// The tuning knobs that one AVIF variant sets: quantization matrices,
/// variance-adaptive quantization with its strength in tenths, and
/// still-image tuning.
#[derive(Debug, Clone, Copy, PartialEq, Eq, Structural)]
pub struct AvifTuning {
    pub qm: bool,
    pub vaq: bool,
    pub vaq_strength_tenths: u8,
    pub still_image: bool,
}

impl AvifEncoder {
    /// The codec identifier of this variant.
    pub open spec fn spec_id(self) -> Seq<char> {
        match self {
            AvifEncoder::Rav1e => "avif-rav1e"@,
            AvifEncoder::Rav1eImazen => "avif-rav1e-imazen"@,
            AvifEncoder::Rav1eQmOnly => "avif-rav1e-qm"@,
            AvifEncoder::Rav1eVaqOnly => "avif-rav1e-qm-vb"@,
            AvifEncoder::Rav1eStillOnly => "avif-rav1e-still"@,
        }
    }

    /// The human-readable name of this variant.
    pub open spec fn spec_name(self) -> Seq<char> {
        match self {
            AvifEncoder::Rav1e => "AVIF (rav1e)"@,
            AvifEncoder::Rav1eImazen => "AVIF (rav1e-imazen all)"@,
            AvifEncoder::Rav1eQmOnly => "AVIF (rav1e QM only)"@,
            AvifEncoder::Rav1eVaqOnly => "AVIF (rav1e QM+VarBoost)"@,
            AvifEncoder::Rav1eStillOnly => "AVIF (rav1e StillImage only)"@,
        }
    }

    /// The tuning this variant encodes with.
    pub open spec fn spec_tuning(self) -> AvifTuning {
        match self {
            AvifEncoder::Rav1e => AvifTuning { qm: false, vaq: false, vaq_strength_tenths: 10, still_image: false },
            AvifEncoder::Rav1eImazen => AvifTuning { qm: true, vaq: false, vaq_strength_tenths: 10, still_image: false },
            AvifEncoder::Rav1eQmOnly => AvifTuning { qm: true, vaq: false, vaq_strength_tenths: 10, still_image: false },
            AvifEncoder::Rav1eVaqOnly => AvifTuning { qm: true, vaq: true, vaq_strength_tenths: 3, still_image: false },
            AvifEncoder::Rav1eStillOnly => AvifTuning { qm: false, vaq: false, vaq_strength_tenths: 10, still_image: true },
        }
    }

    /// All available encoder variants, each once, plain rav1e first and the
    /// others in declaration order.
    pub fn all() -> (r: Vec<AvifEncoder>)
        ensures
            r@ == spec_all_avif_encoders(),
    {
        let mut v: Vec<AvifEncoder> = Vec::new();
        v.push(AvifEncoder::Rav1e);
        v.push(AvifEncoder::Rav1eImazen);
        v.push(AvifEncoder::Rav1eQmOnly);
        v.push(AvifEncoder::Rav1eVaqOnly);
        v.push(AvifEncoder::Rav1eStillOnly);
        assert(v@ =~= spec_all_avif_encoders());
        v
    }

    /// The variants that are registered for comparisons: those whose tuning
    /// the published ravif encoder applies, that is plain rav1e.
    pub fn supported() -> (r: Vec<AvifEncoder>)
        ensures
            r@ == spec_supported_avif_encoders(),
    {
        let mut v: Vec<AvifEncoder> = Vec::new();
        v.push(AvifEncoder::Rav1e);
        assert(v@ =~= spec_supported_avif_encoders());
        v
    }

    /// Get the codec ID string.
    pub fn id(&self) -> (r: &'static str)
        ensures
            r@ == self.spec_id(),
    {
        match self {
            AvifEncoder::Rav1e => "avif-rav1e",
            AvifEncoder::Rav1eImazen => "avif-rav1e-imazen",
            AvifEncoder::Rav1eQmOnly => "avif-rav1e-qm",
            AvifEncoder::Rav1eVaqOnly => "avif-rav1e-qm-vb",
            AvifEncoder::Rav1eStillOnly => "avif-rav1e-still",
        }
    }

    /// Get human-readable name.
    pub fn name(&self) -> (r: &'static str)
        ensures
            r@ == self.spec_name(),
    {
        match self {
            AvifEncoder::Rav1e => "AVIF (rav1e)",
            AvifEncoder::Rav1eImazen => "AVIF (rav1e-imazen all)",
            AvifEncoder::Rav1eQmOnly => "AVIF (rav1e QM only)",
            AvifEncoder::Rav1eVaqOnly => "AVIF (rav1e QM+VarBoost)",
            AvifEncoder::Rav1eStillOnly => "AVIF (rav1e StillImage only)",
        }
    }

    /// The quantization-matrix, variance-boost and still-image settings of
    /// this variant (plain rav1e turns every feature off).
    pub fn tuning(&self) -> (r: AvifTuning)
        ensures
            r == self.spec_tuning(),
    {
        match self {
            AvifEncoder::Rav1e => AvifTuning { qm: false, vaq: false, vaq_strength_tenths: 10, still_image: false },
            AvifEncoder::Rav1eImazen => AvifTuning { qm: true, vaq: false, vaq_strength_tenths: 10, still_image: false },
            AvifEncoder::Rav1eQmOnly => AvifTuning { qm: true, vaq: false, vaq_strength_tenths: 10, still_image: false },
            AvifEncoder::Rav1eVaqOnly => AvifTuning { qm: true, vaq: true, vaq_strength_tenths: 3, still_image: false },
            AvifEncoder::Rav1eStillOnly => AvifTuning { qm: false, vaq: false, vaq_strength_tenths: 10, still_image: true },
        }
    }
}

/// Distinct AVIF variants have distinct identifiers.
pub proof fn lemma_avif_ids_distinct(a: AvifEncoder, b: AvifEncoder)
    requires
        a != b,
    ensures
        a.spec_id() != b.spec_id(),
{
    reveal_strlit("avif-rav1e");
    reveal_strlit("avif-rav1e-imazen");
    reveal_strlit("avif-rav1e-qm");
    reveal_strlit("avif-rav1e-qm-vb");
    reveal_strlit("avif-rav1e-still");
    if a.spec_id().len() == b.spec_id().len() {
        assert(a.spec_id()[11] != b.spec_id()[11]);
    }
}

/// What an AVIF codec description holds.
pub struct AvifCodecView {
    pub encoder: AvifEncoder,
    pub version: Seq<char>,
    pub speed: u8,
}

/// An AVIF codec: one encoder variant run at one speed.
pub struct AvifCodec {
    encoder: AvifEncoder,
    version: String,
    speed: u8,
}

impl View for AvifCodec {
    type V = AvifCodecView;

    closed spec fn view(&self) -> AvifCodecView {
        AvifCodecView { encoder: self.encoder, version: self.version@, speed: self.speed }
    }
}

/// `speed` limited to the encoder's range 1..=10.
pub open spec fn spec_clamp_speed(speed: u8) -> u8 {
    if speed < 1 { 1 } else if speed > 10 { 10 } else { speed }
}

impl AvifCodec {
    /// Create a new AVIF codec at the default speed 6.
    pub fn new(encoder: AvifEncoder) -> (r: Self)
        ensures
            r@ == (AvifCodecView { encoder, version: spec_package_version(), speed: 6 }),
    {
        AvifCodec { encoder, version: String::from_str(package_version()), speed: 6 }
    }

    /// Set the speed/effort tradeoff (1-10, lower = slower/better); values
    /// outside the range are clamped into it.
    pub fn with_speed(self, speed: u8) -> (r: Self)
        ensures
            r@ == (AvifCodecView { speed: spec_clamp_speed(speed), ..self@ }),
    {
        let s = if speed < 1 { 1 } else if speed > 10 { 10 } else { speed };
        AvifCodec { speed: s, ..self }
    }

    /// Create all AVIF encoder variants, each at the default speed.
    pub fn all() -> (r: Vec<Self>)
        ensures
            r@.len() == spec_all_avif_encoders().len(),
            forall|i: int| 0 <= i < r@.len() ==> #[trigger] r@[i]@ == (AvifCodecView {
                encoder: spec_all_avif_encoders()[i],
                version: spec_package_version(),
                speed: 6,
            }),
    {
        let encoders = AvifEncoder::all();
        let mut v: Vec<Self> = Vec::new();
        let mut i: usize = 0;
        while i < encoders.len()
            invariant
                encoders@ == spec_all_avif_encoders(),
                i <= encoders@.len(),
                v@.len() == i,
                forall|j: int| 0 <= j < i ==> #[trigger] v@[j]@ == (AvifCodecView {
                    encoder: spec_all_avif_encoders()[j],
                    version: spec_package_version(),
                    speed: 6,
                }),
            decreases encoders@.len() - i,
        {
            v.push(Self::new(encoders[i]));
            i = i + 1;
        }
        v
    }

    /// Create the supported AVIF encoder variants (see
    /// `AvifEncoder::supported`), each at the default speed.
    pub fn supported() -> (r: Vec<Self>)
        ensures
            r@.len() == spec_supported_avif_encoders().len(),
            forall|i: int| 0 <= i < r@.len() ==> #[trigger] r@[i]@ == (AvifCodecView {
                encoder: spec_supported_avif_encoders()[i],
                version: spec_package_version(),
                speed: 6,
            }),
    {
        let encoders = AvifEncoder::supported();
        let mut v: Vec<Self> = Vec::new();
        let mut i: usize = 0;
        while i < encoders.len()
            invariant
                encoders@ == spec_supported_avif_encoders(),
                i <= encoders@.len(),
                v@.len() == i,
                forall|j: int| 0 <= j < i ==> #[trigger] v@[j]@ == (AvifCodecView {
                    encoder: spec_supported_avif_encoders()[j],
                    version: spec_package_version(),
                    speed: 6,
                }),
            decreases encoders@.len() - i,
        {
            v.push(Self::new(encoders[i]));
            i = i + 1;
        }
        v
    }

    /// The codec identifier: that of the encoder variant.
    pub fn id(&self) -> (r: &'static str)
        ensures
            r@ == self@.encoder.spec_id(),
    {
        self.encoder.id()
    }

    /// The version string.
    pub fn version(&self) -> (r: &str)
        ensures
            r@ == self@.version,
    {
        self.version.as_str()
    }

    /// The output file extension: "avif".
    pub fn format(&self) -> (r: &'static str)
        ensures
            r@ == "avif"@,
    {
        "avif"
    }

    /// The encoder variant.
    pub fn encoder(&self) -> (r: AvifEncoder)
        ensures
            r == self@.encoder,
    {
        self.encoder
    }

    /// The encoder speed.
    pub fn speed(&self) -> (r: u8)
        ensures
            r == self@.speed,
    {
        self.speed
    }
}

/// A variant is supported exactly when its tuning turns none of the
/// imazen knobs on.
pub proof fn lemma_supported_iff_plain(e: AvifEncoder)
    ensures
        spec_supported_avif_encoders().contains(e) <==> is_plain_tuning(e.spec_tuning()),
{
    if spec_supported_avif_encoders().contains(e) {
        let k = choose|k: int| 0 <= k < spec_supported_avif_encoders().len() && spec_supported_avif_encoders()[k] == e;
        assert(k == 0);
    }
    if e == AvifEncoder::Rav1e {
        assert(spec_supported_avif_encoders()[0] == e);
    }
}

} // verus!
