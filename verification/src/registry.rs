//! Which codecs take part in a comparison, and in what order they are
//! registered.
use vstd::prelude::*;
use crate::encoders::avif::{AvifCodec, AvifCodecView, AvifEncoder, spec_supported_avif_encoders, spec_clamp_speed, lemma_avif_ids_distinct};
use crate::encoders::jpeg::{
    JpegCodecView, JpegliCodec, JpegMode, JpegSubsampling, MozJpegCodec, spec_jpeg_id, spec_jpegli, spec_mozjpeg,
    spec_variant, lemma_jpeg_ids_distinct,
};
use crate::encoders::jpegxl::{JpegxlCodec, JpegxlCodecView};
use crate::encoders::webp::WebPCodec;
use crate::encoders::zenjpeg::ZenjpegCodec;
use crate::encoders::spec_package_version;

verus! {

/// Which formats to include in the comparison.
#[derive(Debug, Clone, Copy, PartialEq, Eq, Structural)]
pub struct FormatSelection {
    /// Include JPEG codecs (mozjpeg, jpegli).
    pub jpeg: bool,
    /// Include WebP.
    pub webp: bool,
    /// Include AVIF (all encoders).
    pub avif: bool,
    /// Include JPEG XL.
    pub jpegxl: bool,
}

impl Default for FormatSelection {
    /// No format selected.
    fn default() -> (r: Self)
        ensures
            r == (FormatSelection { jpeg: false, webp: false, avif: false, jpegxl: false }),
    {
        FormatSelection { jpeg: false, webp: false, avif: false, jpegxl: false }
    }
}

impl FormatSelection {
    /// Include all available formats.
    pub fn all() -> (r: Self)
        ensures
            r == (FormatSelection { jpeg: true, webp: true, avif: true, jpegxl: true }),
    {
        FormatSelection { jpeg: true, webp: true, avif: true, jpegxl: true }
    }

    /// Include only JPEG formats.
    pub fn jpeg_only() -> (r: Self)
        ensures
            r == (FormatSelection { jpeg: true, webp: false, avif: false, jpegxl: false }),
    {
        FormatSelection { jpeg: true, webp: false, avif: false, jpegxl: false }
    }

    /// Include only next-gen formats (WebP, AVIF, JPEG XL).
    pub fn next_gen() -> (r: Self)
        ensures
            r == (FormatSelection { jpeg: false, webp: true, avif: true, jpegxl: true }),
    {
        FormatSelection { jpeg: false, webp: true, avif: true, jpegxl: true }
    }
}

/// A codec to register with an evaluation session.
pub enum CodecChoice {
    MozJpeg(MozJpegCodec),
    Jpegli(JpegliCodec),
    WebP(WebPCodec),
    Avif(AvifCodec),
    Jpegxl(JpegxlCodec),
    Zenjpeg(ZenjpegCodec),
}

impl CodecChoice {
    /// The identifier that the codec registers under.
    pub open spec fn spec_id(&self) -> Seq<char> {
        match self {
            CodecChoice::MozJpeg(c) => c@.id,
            CodecChoice::Jpegli(c) => c@.id,
            CodecChoice::WebP(_) => "webp"@,
            CodecChoice::Avif(c) => c@.encoder.spec_id(),
            CodecChoice::Jpegxl(_) => "jpegxl"@,
            CodecChoice::Zenjpeg(_) => "zenjpeg"@,
        }
    }

    /// The identifier that the codec registers under.
    pub fn id(&self) -> (r: &str)
        ensures
            r@ == self.spec_id(),
    {
        match self {
            CodecChoice::MozJpeg(c) => c.id(),
            CodecChoice::Jpegli(c) => c.id(),
            CodecChoice::WebP(c) => c.id(),
            CodecChoice::Avif(c) => c.id(),
            CodecChoice::Jpegxl(c) => c.id(),
            CodecChoice::Zenjpeg(c) => c.id(),
        }
    }
}

/// What a codec choice holds: the codec's description.
pub enum CodecChoiceView {
    MozJpeg(JpegCodecView),
    Jpegli(JpegCodecView),
    WebP(Seq<char>),
    Avif(AvifCodecView),
    Jpegxl(JpegxlCodecView),
    Zenjpeg(Seq<char>),
}

impl View for CodecChoice {
    type V = CodecChoiceView;

    open spec fn view(&self) -> CodecChoiceView {
        match self {
            CodecChoice::MozJpeg(c) => CodecChoiceView::MozJpeg(c@),
            CodecChoice::Jpegli(c) => CodecChoiceView::Jpegli(c@),
            CodecChoice::WebP(c) => CodecChoiceView::WebP(c@),
            CodecChoice::Avif(c) => CodecChoiceView::Avif(c@),
            CodecChoice::Jpegxl(c) => CodecChoiceView::Jpegxl(c@),
            CodecChoice::Zenjpeg(c) => CodecChoiceView::Zenjpeg(c@),
        }
    }
}

/// The descriptions of a sequence of codec choices.
pub open spec fn choice_views(v: Seq<CodecChoice>) -> Seq<CodecChoiceView> {
    v.map_values(|c: CodecChoice| c@)
}

/// The eight JPEG codecs: every MozJPEG variant, then every jpegli variant,
/// each in the order of `all_variants`.
pub open spec fn spec_jpeg_codecs() -> Seq<CodecChoiceView> {
    Seq::new(4, |i: int| CodecChoiceView::MozJpeg(spec_mozjpeg(spec_variant(i).0, spec_variant(i).1)))
        + Seq::new(4, |i: int| CodecChoiceView::Jpegli(spec_jpegli(spec_variant(i).0, spec_variant(i).1)))
}

/// Every supported AVIF variant, in the order of `AvifEncoder::supported`, at `speed`
/// clamped to 1..=10.
pub open spec fn spec_avif_codecs(speed: u8) -> Seq<CodecChoiceView> {
    spec_supported_avif_encoders().map_values(
        |e: AvifEncoder|
            CodecChoiceView::Avif(
                AvifCodecView { encoder: e, version: spec_package_version(), speed: spec_clamp_speed(speed) },
            ),
    )
}

/// The codecs that a registry registers for a format selection: the JPEG
/// variants, then WebP, then the supported AVIF variants at the given speed, then
/// JPEG XL at its default speed.
pub open spec fn spec_selection_codecs(formats: FormatSelection, avif_speed: u8) -> Seq<CodecChoiceView> {
    (if formats.jpeg { spec_jpeg_codecs() } else { Seq::empty() })
        + (if formats.webp { seq![CodecChoiceView::WebP("1.4"@)] } else { Seq::empty() })
        + (if formats.avif { spec_avif_codecs(avif_speed) } else { Seq::empty() })
        + (if formats.jpegxl {
        seq![CodecChoiceView::Jpegxl(JpegxlCodecView { version: spec_package_version(), speed: 7 })]
    } else {
        Seq::empty()
    })
}

/// The codecs of a quality sweep: the JPEG variants, then zenjpeg, WebP and
/// the AVIF variants at the given speed where asked.
pub open spec fn spec_sweep_codecs(zenjpeg: bool, webp: bool, avif: bool, avif_speed: u8) -> Seq<CodecChoiceView> {
    spec_jpeg_codecs()
        + (if zenjpeg { seq![CodecChoiceView::Zenjpeg("0.3"@)] } else { Seq::empty() })
        + (if webp { seq![CodecChoiceView::WebP("1.4"@)] } else { Seq::empty() })
        + (if avif { spec_avif_codecs(avif_speed) } else { Seq::empty() })
}

/// The identifiers of a sequence of codec choices.
pub open spec fn choice_ids(v: Seq<CodecChoice>) -> Seq<Seq<char>> {
    v.map_values(|c: CodecChoice| c.spec_id())
}

/// The identifiers of the eight JPEG variants, MozJPEG first, each in the
/// order of `all_variants`.
pub open spec fn spec_jpeg_ids() -> Seq<Seq<char>> {
    Seq::new(4, |i: int| spec_jpeg_id("mozjpeg"@, spec_variant(i).0, spec_variant(i).1))
        + Seq::new(4, |i: int| spec_jpeg_id("jpegli"@, spec_variant(i).0, spec_variant(i).1))
}

/// The identifiers of the supported AVIF variants, in the order of
/// `AvifEncoder::supported`.
pub open spec fn spec_avif_ids() -> Seq<Seq<char>> {
    spec_supported_avif_encoders().map_values(|e: AvifEncoder| e.spec_id())
}

/// The identifiers that `register_all` registers for a format selection:
/// the JPEG variants, then WebP, then the supported AVIF variants, then JPEG XL.
pub open spec fn spec_selection_ids(formats: FormatSelection) -> Seq<Seq<char>> {
    (if formats.jpeg { spec_jpeg_ids() } else { Seq::empty() })
        + (if formats.webp { seq!["webp"@] } else { Seq::empty() })
        + (if formats.avif { spec_avif_ids() } else { Seq::empty() })
        + (if formats.jpegxl { seq!["jpegxl"@] } else { Seq::empty() })
}

/// Every AVIF codec in `v` runs at `speed`.
pub open spec fn avif_speeds_are(v: Seq<CodecChoice>, speed: u8) -> bool {
    forall|i: int| 0 <= i < v.len() ==> (#[trigger] v[i] matches CodecChoice::Avif(c) ==> c@.speed == speed)
}

fn push_choice(out: &mut Vec<CodecChoice>, c: CodecChoice, Ghost(speed): Ghost<u8>)
    requires
        avif_speeds_are(old(out)@, speed),
        c matches CodecChoice::Avif(a) ==> a@.speed == speed,
    ensures
        choice_ids(final(out)@) == choice_ids(old(out)@).push(c.spec_id()),
        choice_views(final(out)@) == choice_views(old(out)@).push(c@),
        avif_speeds_are(final(out)@, speed),
{
    let ghost cid = c.spec_id();
    let ghost cv = c@;
    out.push(c);
    assert(choice_ids(final(out)@) =~= choice_ids(old(out)@).push(cid));
    assert(choice_views(final(out)@) =~= choice_views(old(out)@).push(cv));
}

/// Appends every MozJPEG variant, then every jpegli variant.
fn push_jpeg_variants(out: &mut Vec<CodecChoice>, Ghost(speed): Ghost<u8>)
    requires
        avif_speeds_are(old(out)@, speed),
    ensures
        choice_ids(final(out)@) == choice_ids(old(out)@) + spec_jpeg_ids(),
        choice_views(final(out)@) == choice_views(old(out)@) + spec_jpeg_codecs(),
        avif_speeds_are(final(out)@, speed),
{
    let ghost start = choice_ids(out@);
    let ghost vstart = choice_views(out@);
    let ghost cv = spec_jpeg_codecs();
    let mut moz = MozJpegCodec::all_variants();
    let mut jli = JpegliCodec::all_variants();
    let ghost mozv = moz@;
    let ghost jliv = jli@;
    let ghost ids = spec_jpeg_ids();
    assert(mozv.skip(0) =~= mozv);
    assert(jliv.skip(0) =~= jliv);
    while moz.len() > 0
        invariant
            mozv.len() == 4,
            ids.len() == 8,
            forall|k: int| 0 <= k < 4 ==> #[trigger] mozv[k]@.id == ids[k],
            moz@.len() <= 4,
            moz@ == mozv.skip(4 - moz@.len()),
            choice_ids(out@) == start + ids.subrange(0, 4 - moz@.len()),
            cv.len() == 8,
            forall|k: int| 0 <= k < 4 ==> cv[k] == CodecChoiceView::MozJpeg(#[trigger] mozv[k]@),
            choice_views(out@) == vstart + cv.subrange(0, 4 - moz@.len()),
            avif_speeds_are(out@, speed),
        decreases moz@.len(),
    {
        let ghost k = 4 - moz@.len();
        assert(moz@[0] == mozv[k]);
        let c = moz.remove(0);
        push_choice(out, CodecChoice::MozJpeg(c), Ghost(speed));
        assert(moz@ =~= mozv.skip(4 - moz@.len()));
        assert(ids.subrange(0, k + 1) =~= ids.subrange(0, k).push(ids[k]));
        assert(cv.subrange(0, k + 1) =~= cv.subrange(0, k).push(cv[k]));
    }
    while jli.len() > 0
        invariant
            jliv.len() == 4,
            ids.len() == 8,
            forall|k: int| 0 <= k < 4 ==> #[trigger] jliv[k]@.id == ids[k + 4],
            jli@.len() <= 4,
            jli@ == jliv.skip(4 - jli@.len()),
            choice_ids(out@) == start + ids.subrange(0, 8 - jli@.len()),
            cv.len() == 8,
            forall|k: int| 0 <= k < 4 ==> cv[k + 4] == CodecChoiceView::Jpegli(#[trigger] jliv[k]@),
            choice_views(out@) == vstart + cv.subrange(0, 8 - jli@.len()),
            avif_speeds_are(out@, speed),
        decreases jli@.len(),
    {
        let ghost k = 4 - jli@.len();
        assert(jli@[0] == jliv[k]);
        let c = jli.remove(0);
        push_choice(out, CodecChoice::Jpegli(c), Ghost(speed));
        assert(jli@ =~= jliv.skip(4 - jli@.len()));
        assert(ids.subrange(0, k + 5) =~= ids.subrange(0, k + 4).push(ids[k + 4]));
        assert(cv.subrange(0, k + 5) =~= cv.subrange(0, k + 4).push(cv[k + 4]));
    }
    assert(ids.subrange(0, 8) =~= ids);
    assert(cv.subrange(0, 8) =~= cv);
}

/// Appends every supported AVIF variant at the given speed (clamped to 1..=10).
fn push_avif_variants(out: &mut Vec<CodecChoice>, speed: u8)
    requires
        avif_speeds_are(old(out)@, spec_clamp_speed(speed)),
    ensures
        choice_ids(final(out)@) == choice_ids(old(out)@) + spec_avif_ids(),
        choice_views(final(out)@) == choice_views(old(out)@) + spec_avif_codecs(speed),
        avif_speeds_are(final(out)@, spec_clamp_speed(speed)),
{
    let ghost start = choice_ids(out@);
    let ghost vstart = choice_views(out@);
    let avifs = AvifCodec::supported();
    let mut i: usize = 0;
    while i < avifs.len()
        invariant
            avifs@.len() == spec_supported_avif_encoders().len(),
            forall|j: int| 0 <= j < avifs@.len() ==> #[trigger] avifs@[j]@ == (AvifCodecView {
                encoder: spec_supported_avif_encoders()[j],
                version: spec_package_version(),
                speed: 6,
            }),
            i <= avifs@.len(),
            choice_ids(out@) == start + spec_avif_ids().subrange(0, i as int),
            choice_views(out@) == vstart + spec_avif_codecs(speed).subrange(0, i as int),
            avif_speeds_are(out@, spec_clamp_speed(speed)),
        decreases avifs@.len() - i,
    {
        let e = avifs[i].encoder();
        let codec = AvifCodec::new(e).with_speed(speed);
        assert(CodecChoice::Avif(codec)@ == spec_avif_codecs(speed)[i as int]);
        push_choice(out, CodecChoice::Avif(codec), Ghost(spec_clamp_speed(speed)));
        assert(spec_avif_ids().subrange(0, i + 1) =~= spec_avif_ids().subrange(0, i as int).push(e.spec_id()));
        assert(spec_avif_codecs(speed).subrange(0, i + 1) =~= spec_avif_codecs(speed).subrange(0, i as int).push(
            spec_avif_codecs(speed)[i as int],
        ));
        i = i + 1;
    }
    assert(spec_avif_ids().subrange(0, i as int) =~= spec_avif_ids());
    assert(spec_avif_codecs(speed).subrange(0, i as int) =~= spec_avif_codecs(speed));
}

/// The codecs that a registry registers for a format selection, in order:
/// every MozJPEG and jpegli variant, WebP, every supported AVIF variant at the given
/// speed (clamped to 1..=10), and JPEG XL, each only if its format is
/// selected.
pub fn codecs_for_selection(formats: &FormatSelection, avif_speed: u8) -> (r: Vec<CodecChoice>)
    ensures
        choice_views(r@) == spec_selection_codecs(*formats, avif_speed),
        choice_ids(r@) == spec_selection_ids(*formats),
        avif_speeds_are(r@, spec_clamp_speed(avif_speed)),
{
    let ghost sp = spec_clamp_speed(avif_speed);
    let mut out: Vec<CodecChoice> = Vec::new();
    assert(choice_ids(out@) =~= Seq::<Seq<char>>::empty());
    assert(choice_views(out@) =~= Seq::<CodecChoiceView>::empty());
    if formats.jpeg {
        push_jpeg_variants(&mut out, Ghost(sp));
    }
    if formats.webp {
        push_choice(&mut out, CodecChoice::WebP(WebPCodec::new()), Ghost(sp));
    }
    if formats.avif {
        push_avif_variants(&mut out, avif_speed);
    }
    if formats.jpegxl {
        push_choice(&mut out, CodecChoice::Jpegxl(JpegxlCodec::new()), Ghost(sp));
    }
    assert(choice_ids(out@) =~= spec_selection_ids(*formats));
    assert(choice_views(out@) =~= spec_selection_codecs(*formats, avif_speed));
    out
}

/// The identifiers that a quality sweep runs: every JPEG variant, then
/// zenjpeg, WebP and the supported AVIF variants where asked.
pub open spec fn spec_sweep_ids(zenjpeg: bool, webp: bool, avif: bool) -> Seq<Seq<char>> {
    spec_jpeg_ids()
        + (if zenjpeg { seq!["zenjpeg"@] } else { Seq::empty() })
        + (if webp { seq!["webp"@] } else { Seq::empty() })
        + (if avif { spec_avif_ids() } else { Seq::empty() })
}

/// The codecs of a brute-force quality sweep, in order: every MozJPEG and
/// jpegli variant, then zenjpeg, WebP and every supported AVIF variant (at the given
/// speed, clamped to 1..=10) where asked.
pub fn sweep_codecs(zenjpeg: bool, webp: bool, avif: bool, avif_speed: u8) -> (r: Vec<CodecChoice>)
    ensures
        choice_views(r@) == spec_sweep_codecs(zenjpeg, webp, avif, avif_speed),
        choice_ids(r@) == spec_sweep_ids(zenjpeg, webp, avif),
        avif_speeds_are(r@, spec_clamp_speed(avif_speed)),
{
    let ghost sp = spec_clamp_speed(avif_speed);
    let mut out: Vec<CodecChoice> = Vec::new();
    assert(choice_ids(out@) =~= Seq::<Seq<char>>::empty());
    assert(choice_views(out@) =~= Seq::<CodecChoiceView>::empty());
    push_jpeg_variants(&mut out, Ghost(sp));
    if zenjpeg {
        let mut z = ZenjpegCodec::all_variants();
        let c = z.remove(0);
        push_choice(&mut out, CodecChoice::Zenjpeg(c), Ghost(sp));
    }
    if webp {
        push_choice(&mut out, CodecChoice::WebP(WebPCodec::new()), Ghost(sp));
    }
    if avif {
        push_avif_variants(&mut out, avif_speed);
    }
    assert(choice_ids(out@) =~= spec_sweep_ids(zenjpeg, webp, avif));
    assert(choice_views(out@) =~= spec_sweep_codecs(zenjpeg, webp, avif, avif_speed));
    out
}

/// No element of `s` occurs twice.
pub open spec fn all_distinct(s: Seq<Seq<char>>) -> bool {
    forall|i: int, j: int| 0 <= i < s.len() && 0 <= j < s.len() && i != j ==> s[i] != s[j]
}

/// No element of `a` occurs in `b`.
pub open spec fn disjoint(a: Seq<Seq<char>>, b: Seq<Seq<char>>) -> bool {
    forall|i: int, j: int| 0 <= i < a.len() && 0 <= j < b.len() ==> a[i] != b[j]
}

proof fn lemma_concat_distinct(a: Seq<Seq<char>>, b: Seq<Seq<char>>)
    requires
        all_distinct(a),
        all_distinct(b),
        disjoint(a, b),
    ensures
        all_distinct(a + b),
{
    let c = a + b;
    assert forall|i: int, j: int| 0 <= i < c.len() && 0 <= j < c.len() && i != j implies c[i] != c[j] by {
        if i < a.len() && j >= a.len() {
            assert(c[j] == b[j - a.len()]);
        } else if j < a.len() && i >= a.len() {
            assert(c[i] == b[i - a.len()]);
        }
    }
}

proof fn lemma_jpeg_id_shape(s: JpegSubsampling, m: JpegMode)
    ensures
        spec_jpeg_id("mozjpeg"@, s, m).len() == 16,
        spec_jpeg_id("mozjpeg"@, s, m)[0] == 'm',
        spec_jpeg_id("jpegli"@, s, m).len() == 15,
        spec_jpeg_id("jpegli"@, s, m)[0] == 'j',
{
    reveal_strlit("mozjpeg");
    reveal_strlit("jpegli");
    reveal_strlit("-444");
    reveal_strlit("-420");
    reveal_strlit("-prog");
    reveal_strlit("-base");
}

proof fn lemma_avif_id_shape(e: AvifEncoder)
    ensures
        e.spec_id().len() >= 10,
        e.spec_id()[0] == 'a',
{
    reveal_strlit("avif-rav1e");
    reveal_strlit("avif-rav1e-imazen");
    reveal_strlit("avif-rav1e-qm");
    reveal_strlit("avif-rav1e-qm-vb");
    reveal_strlit("avif-rav1e-still");
}

/// A registry never registers two codecs under the same identifier: for
/// every format selection, the identifiers that `codecs_for_selection`
/// gives are pairwise distinct.
pub proof fn lemma_selection_ids_distinct(formats: FormatSelection)
    ensures
        all_distinct(spec_selection_ids(formats)),
{
    reveal_strlit("webp");
    reveal_strlit("jpegxl");
    let moz = Seq::new(4, |i: int| spec_jpeg_id("mozjpeg"@, spec_variant(i).0, spec_variant(i).1));
    let jli = Seq::new(4, |i: int| spec_jpeg_id("jpegli"@, spec_variant(i).0, spec_variant(i).1));
    assert forall|i: int| 0 <= i < 4 implies #[trigger] moz[i].len() == 16 && moz[i][0] == 'm'
        && jli[i].len() == 15 && jli[i][0] == 'j' by {
        lemma_jpeg_id_shape(spec_variant(i).0, spec_variant(i).1);
    }
    assert(all_distinct(moz) && all_distinct(jli) && disjoint(moz, jli)) by {
        assert forall|i: int, j: int| 0 <= i < 4 && 0 <= j < 4 implies
            (i != j ==> moz[i] != moz[j]) && (i != j ==> jli[i] != jli[j]) && moz[i] != jli[j] by {
            lemma_jpeg_ids_distinct(spec_variant(i).0, spec_variant(i).1, spec_variant(j).0, spec_variant(j).1);
        }
    }
    lemma_concat_distinct(moz, jli);
    let jpeg = spec_jpeg_ids();
    assert(jpeg == moz + jli);
    assert forall|i: int| 0 <= i < jpeg.len() implies (#[trigger] jpeg[i]).len() >= 15 && jpeg[i][0] != 'a' by {
        if i < 4 {
            assert(jpeg[i] == moz[i]);
            assert(moz[i].len() == 16 && moz[i][0] == 'm');
        } else {
            assert(jpeg[i] == jli[i - 4]);
            lemma_jpeg_id_shape(spec_variant(i - 4).0, spec_variant(i - 4).1);
        }
    }
    let avif = spec_avif_ids();
    assert forall|i: int| 0 <= i < avif.len() implies (#[trigger] avif[i]).len() >= 10 && avif[i][0] == 'a' by {
        lemma_avif_id_shape(spec_supported_avif_encoders()[i]);
    }
    assert(all_distinct(avif)) by {
        assert forall|i: int, j: int| 0 <= i < avif.len() && 0 <= j < avif.len() && i != j implies avif[i] != avif[j] by {
            lemma_avif_ids_distinct(spec_supported_avif_encoders()[i], spec_supported_avif_encoders()[j]);
        }
    }
    let a = if formats.jpeg { jpeg } else { Seq::empty() };
    let b = if formats.webp { seq!["webp"@] } else { Seq::empty() };
    let c = if formats.avif { avif } else { Seq::empty() };
    let d = if formats.jpegxl { seq!["jpegxl"@] } else { Seq::empty() };
    assert(all_distinct(a));
    assert(all_distinct(b));
    assert(all_distinct(c));
    assert(all_distinct(d));
    assert(disjoint(a, b)) by {
        assert forall|i: int, j: int| 0 <= i < a.len() && 0 <= j < b.len() implies a[i] != b[j] by {
            assert(a[i].len() >= 15);
        }
    }
    lemma_concat_distinct(a, b);
    assert(disjoint(a + b, c)) by {
        assert forall|i: int, j: int| 0 <= i < (a + b).len() && 0 <= j < c.len() implies (a + b)[i] != c[j] by {
            assert(c[j][0] == 'a');
            if i < a.len() {
                assert((a + b)[i] == a[i]);
                assert(a[i][0] != 'a');
            } else {
                assert((a + b)[i] == b[i - a.len()]);
            }
        }
    }
    lemma_concat_distinct(a + b, c);
    assert(disjoint(a + b + c, d)) by {
        assert forall|i: int, j: int| 0 <= i < (a + b + c).len() && 0 <= j < d.len() implies (a + b + c)[i] != d[j] by {
            let x = (a + b + c)[i];
            assert(d[j] == "jpegxl"@);
            assert(d[j].len() == 6 && d[j][0] == 'j');
            if i < a.len() {
                assert(x == a[i]);
                assert(x.len() >= 15);
            } else if i < a.len() + b.len() {
                assert(x == b[i - a.len()]);
                assert(x == "webp"@);
                assert(x.len() == 4);
            } else {
                assert(x == c[i - a.len() - b.len()]);
                assert(x[0] == 'a');
            }
        }
    }
    lemma_concat_distinct(a + b + c, d);
}

} // verus!
