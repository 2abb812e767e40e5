//! Choosing the codecs that a subject codec is compared against.
use vstd::prelude::*;
use crate::encoders::avif::{AvifCodec, AvifCodecView, AvifEncoder, spec_supported_avif_encoders};
use crate::encoders::jpeg::{JpegliCodec, JpegMode, JpegSubsampling, MozJpegCodec, spec_jpeg_id};
use crate::encoders::webp::WebPCodec;
use crate::encoders::spec_package_version;
use crate::registry::{CodecChoice, choice_ids, spec_avif_ids};
use crate::cli::corpus::{count_by_key, counts_view, is_count_table, listed, occurrences, lemma_occurrences_absent};
use crate::cli::sparse::strings_view;

verus! {

/// `s` with every occurrence of `x` removed, order kept.
pub open spec fn remove_all(s: Seq<Seq<char>>, x: Seq<char>) -> Seq<Seq<char>>
    decreases s.len(),
{
    if s.len() == 0 {
        s
    } else {
        let rest = remove_all(s.drop_last(), x);
        if s.last() == x { rest } else { rest.push(s.last()) }
    }
}

/// Whether a codec group takes part: the subject's own format group when
/// same-format codecs are included, every other group when other formats are.
pub open spec fn group_included(is_subject_format: bool, include_same: bool, include_other: bool) -> bool {
    (is_subject_format && include_same) || (!is_subject_format && include_other)
}

/// Whether the subject format is `name` (or, for JPEG, "jpg").
pub open spec fn format_is(subject_format: Option<Seq<char>>, names: Seq<Seq<char>>) -> bool {
    subject_format matches Some(f) && names.contains(f)
}

/// The identifiers that a subject codec is compared against, before the
/// subject itself is left out: default MozJPEG and jpegli, WebP, every supported AVIF
/// variant, each group only if it takes part.
pub open spec fn spec_comparison_candidates(
    subject_format: Option<Seq<char>>,
    include_same: bool,
    include_other: bool,
) -> Seq<Seq<char>> {
    let is_jpeg = format_is(subject_format, seq!["jpeg"@, "jpg"@]);
    let is_webp = format_is(subject_format, seq!["webp"@]);
    let is_avif = format_is(subject_format, seq!["avif"@]);
    (if group_included(is_jpeg, include_same, include_other) {
        seq![
            spec_jpeg_id("mozjpeg"@, JpegSubsampling::S420, JpegMode::Progressive),
            spec_jpeg_id("jpegli"@, JpegSubsampling::S420, JpegMode::Progressive),
        ]
    } else {
        Seq::empty()
    }) + (if group_included(is_webp, include_same, include_other) {
        seq!["webp"@]
    } else {
        Seq::empty()
    }) + (if group_included(is_avif, include_same, include_other) {
        spec_avif_ids()
    } else {
        Seq::empty()
    })
}

proof fn lemma_remove_all_push(s: Seq<Seq<char>>, x: Seq<char>, e: Seq<char>)
    ensures
        remove_all(s.push(x), e) == if x == e { remove_all(s, e) } else { remove_all(s, e).push(x) },
{
    assert(s.push(x).drop_last() =~= s);
}

fn push_unless(out: &mut Vec<CodecChoice>, c: CodecChoice, exclude: &str, Ghost(seen): Ghost<Seq<Seq<char>>>)
    requires
        choice_ids(old(out)@) == remove_all(seen, exclude@),
    ensures
        choice_ids(final(out)@) == remove_all(seen.push(c.spec_id()), exclude@),
{
    proof {
        lemma_remove_all_push(seen, c.spec_id(), exclude@);
    }
    if !crate::text::str_eq(c.id(), exclude) {
        let ghost before = out@;
        let ghost cid = c.spec_id();
        out.push(c);
        assert(choice_ids(out@) =~= choice_ids(before).push(cid));
    }
}

fn format_matches(subject_format: Option<&str>, name: &str) -> (r: bool)
    ensures
        r == (subject_format matches Some(f) && f@ == name@),
{
    match subject_format {
        Some(f) => crate::text::str_eq(f, name),
        None => false,
    }
}

/// The codecs that `subject_format` is compared against: the default MozJPEG
/// and jpegli variants, WebP and every supported AVIF variant, each group taking part
/// as `group_included` says, and every codec whose identifier equals
/// `exclude_codec` (the subject's own) left out.
pub fn comparison_codecs(
    subject_format: Option<&str>,
    include_same: bool,
    include_other: bool,
    exclude_codec: &str,
) -> (r: Vec<CodecChoice>)
    ensures
        choice_ids(r@) == remove_all(
            spec_comparison_candidates(
                match subject_format { Some(f) => Some(f@), None => None },
                include_same,
                include_other,
            ),
            exclude_codec@,
        ),
{
    let ghost fmt = match subject_format { Some(f) => Some(f@), None => None::<Seq<char>> };
    let ghost jpeg_names = seq!["jpeg"@, "jpg"@];
    let is_jpeg = format_matches(subject_format, "jpeg") || format_matches(subject_format, "jpg");
    let is_webp = format_matches(subject_format, "webp");
    let is_avif = format_matches(subject_format, "avif");
    proof {
        assert(is_jpeg == format_is(fmt, jpeg_names)) by {
            if let Some(f) = fmt {
                assert(jpeg_names[0] == "jpeg"@);
                assert(jpeg_names[1] == "jpg"@);
                if jpeg_names.contains(f) {
                    let k = choose|k: int| 0 <= k < jpeg_names.len() && jpeg_names[k] == f;
                    assert(k == 0 || k == 1);
                }
            }
        }
        assert(is_webp == format_is(fmt, seq!["webp"@])) by {
            if let Some(f) = fmt {
                assert(seq!["webp"@][0] == "webp"@);
            }
        }
        assert(is_avif == format_is(fmt, seq!["avif"@])) by {
            if let Some(f) = fmt {
                assert(seq!["avif"@][0] == "avif"@);
            }
        }
    }
    let mut out: Vec<CodecChoice> = Vec::new();
    let ghost mut seen: Seq<Seq<char>> = Seq::empty();
    assert(choice_ids(out@) =~= remove_all(seen, exclude_codec@));
    if (is_jpeg && include_same) || (!is_jpeg && include_other) {
        let moz = MozJpegCodec::new();
        let ghost mid = moz@.id;
        push_unless(&mut out, CodecChoice::MozJpeg(moz), exclude_codec, Ghost(seen));
        proof { seen = seen.push(mid); }
        let jli = JpegliCodec::new();
        let ghost jid = jli@.id;
        push_unless(&mut out, CodecChoice::Jpegli(jli), exclude_codec, Ghost(seen));
        proof { seen = seen.push(jid); }
    }
    if (is_webp && include_same) || (!is_webp && include_other) {
        push_unless(&mut out, CodecChoice::WebP(WebPCodec::new()), exclude_codec, Ghost(seen));
        proof { seen = seen.push("webp"@); }
    }
    let ghost mark = seen;
    if (is_avif && include_same) || (!is_avif && include_other) {
        let avifs = AvifCodec::supported();
        let mut avifs = avifs;
        let ghost av = avifs@;
        assert(av.skip(0) =~= av);
        let mut i: usize = 0;
        while avifs.len() > 0
            invariant
                av.len() == spec_supported_avif_encoders().len(),
                forall|j: int| 0 <= j < av.len() ==> #[trigger] av[j]@ == (AvifCodecView {
                    encoder: spec_supported_avif_encoders()[j],
                    version: spec_package_version(),
                    speed: 6,
                }),
                i <= av.len(),
                avifs@ == av.skip(i as int),
                seen == mark + spec_avif_ids().subrange(0, i as int),
                choice_ids(out@) == remove_all(seen, exclude_codec@),
            decreases avifs@.len(),
        {
            let c = avifs.remove(0);
            let ghost cid = c@.encoder.spec_id();
            assert(cid == spec_avif_ids()[i as int]);
            push_unless(&mut out, CodecChoice::Avif(c), exclude_codec, Ghost(seen));
            proof {
                seen = seen.push(cid);
                assert(spec_avif_ids().subrange(0, i + 1) =~= spec_avif_ids().subrange(0, i as int).push(cid));
            }
            i = i + 1;
            assert(avifs@ =~= av.skip(i as int));
        }
        assert(spec_avif_ids().subrange(0, i as int) =~= spec_avif_ids());
    }
    assert(seen =~= spec_comparison_candidates(fmt, include_same, include_other));
    out
}


/// `remove_all` keeps the order of what it keeps and leaves nothing equal to
/// `x`: every kept identifier differs from `x` and comes from `s`.
proof fn lemma_remove_all_excludes(s: Seq<Seq<char>>, x: Seq<char>)
    ensures
        forall|i: int| 0 <= i < remove_all(s, x).len() ==> #[trigger] remove_all(s, x)[i] != x
            && s.contains(remove_all(s, x)[i]),
    decreases s.len(),
{
    if s.len() > 0 {
        lemma_remove_all_excludes(s.drop_last(), x);
        let rest = remove_all(s.drop_last(), x);
        assert forall|i: int| 0 <= i < remove_all(s, x).len() implies #[trigger] remove_all(s, x)[i] != x
            && s.contains(remove_all(s, x)[i]) by {
            if i < rest.len() {
                assert(remove_all(s, x)[i] == rest[i]);
                let k = choose|k: int| 0 <= k < s.drop_last().len() && s.drop_last()[k] == rest[i];
                assert(s[k] == rest[i]);
            } else {
                assert(remove_all(s, x)[i] == s.last());
                assert(s[s.len() - 1] == s.last());
            }
        }
    }
}

/// A subject codec is never compared against itself: no identifier that
/// `comparison_codecs` gives equals the excluded (subject) identifier, and
/// each is one of the candidates.
pub proof fn lemma_comparison_excludes_subject(
    subject_format: Option<Seq<char>>,
    include_same: bool,
    include_other: bool,
    exclude: Seq<char>,
)
    ensures
        forall|i: int| 0 <= i < remove_all(spec_comparison_candidates(subject_format, include_same, include_other), exclude).len()
            ==> #[trigger] remove_all(spec_comparison_candidates(subject_format, include_same, include_other), exclude)[i] != exclude
                && spec_comparison_candidates(subject_format, include_same, include_other).contains(
                    remove_all(spec_comparison_candidates(subject_format, include_same, include_other), exclude)[i]),
{
    lemma_remove_all_excludes(spec_comparison_candidates(subject_format, include_same, include_other), exclude);
}

proof fn lemma_remove_all_contains(s: Seq<Seq<char>>, x: Seq<char>, e: Seq<char>)
    ensures
        remove_all(s, x).contains(e) == (s.contains(e) && e != x),
    decreases s.len(),
{
    if s.len() > 0 {
        let p = s.drop_last();
        lemma_remove_all_contains(p, x, e);
        let rest = remove_all(p, x);
        if s.last() != x {
            crate::cli::compare_args::lemma_push_contains(rest, s.last(), e);
        }
        assert(s == p.push(s.last()));
        crate::cli::compare_args::lemma_push_contains(p, s.last(), e);
    }
}

proof fn lemma_concat_contains(a: Seq<Seq<char>>, b: Seq<Seq<char>>, e: Seq<char>)
    ensures
        (a + b).contains(e) == (a.contains(e) || b.contains(e)),
{
    let c = a + b;
    if c.contains(e) {
        let k = choose|k: int| 0 <= k < c.len() && c[k] == e;
        if k < a.len() {
            assert(a[k] == e);
        } else {
            assert(b[k - a.len()] == e);
        }
    }
    if a.contains(e) {
        let k = choose|k: int| 0 <= k < a.len() && a[k] == e;
        assert(c[k] == e);
    }
    if b.contains(e) {
        let k = choose|k: int| 0 <= k < b.len() && b[k] == e;
        assert(c[k + a.len()] == e);
    }
}

/// Which codecs a subject is compared against, group by group: the default
/// MozJPEG and jpegli codecs take part exactly when the subject format is
/// "jpeg" or "jpg" and same-format codecs are included, or it is another
/// format (or unknown) and other formats are included; WebP likewise for
/// "webp", and the supported AVIF codec (avif-rav1e) likewise for "avif".
/// A codec that takes part is compared unless it is the subject itself, and
/// no other codec is ever compared.
pub proof fn lemma_comparison_groups(
    subject_format: Option<Seq<char>>,
    include_same: bool,
    include_other: bool,
    exclude: Seq<char>,
)
    ensures
        ({
            let r = remove_all(spec_comparison_candidates(subject_format, include_same, include_other), exclude);
            let jpeg = subject_format == Some("jpeg"@) || subject_format == Some("jpg"@);
            let webp = subject_format == Some("webp"@);
            let avif = subject_format == Some("avif"@);
            &&& r.contains("mozjpeg-420-prog"@) == (exclude != "mozjpeg-420-prog"@ && ((jpeg && include_same) || (!jpeg
                && include_other)))
            &&& r.contains("jpegli-420-prog"@) == (exclude != "jpegli-420-prog"@ && ((jpeg && include_same) || (!jpeg
                && include_other)))
            &&& r.contains("webp"@) == (exclude != "webp"@ && ((webp && include_same) || (!webp && include_other)))
            &&& r.contains("avif-rav1e"@) == (exclude != "avif-rav1e"@ && ((avif && include_same) || (!avif
                && include_other)))
            &&& forall|i: int|
                0 <= i < r.len() ==> #[trigger] r[i] == "mozjpeg-420-prog"@ || r[i] == "jpegli-420-prog"@ || r[i]
                    == "webp"@ || r[i] == "avif-rav1e"@
        }),
{
    reveal_strlit("mozjpeg");
    reveal_strlit("jpegli");
    reveal_strlit("-420");
    reveal_strlit("-prog");
    reveal_strlit("mozjpeg-420-prog");
    reveal_strlit("jpegli-420-prog");
    reveal_strlit("webp");
    reveal_strlit("avif-rav1e");
    reveal_strlit("avif");
    reveal_strlit("jpeg");
    reveal_strlit("jpg");
    let moz = spec_jpeg_id("mozjpeg"@, JpegSubsampling::S420, JpegMode::Progressive);
    let jli = spec_jpeg_id("jpegli"@, JpegSubsampling::S420, JpegMode::Progressive);
    assert(moz =~= "mozjpeg-420-prog"@);
    assert(jli =~= "jpegli-420-prog"@);
    let jn = seq!["jpeg"@, "jpg"@];
    let jpeg = subject_format == Some("jpeg"@) || subject_format == Some("jpg"@);
    assert(format_is(subject_format, jn) == jpeg) by {
        if let Some(f) = subject_format {
            if jn.contains(f) {
                let k = choose|k: int| 0 <= k < jn.len() && jn[k] == f;
                assert(k == 0 || k == 1);
            }
            if f == "jpeg"@ {
                assert(jn[0] == f);
            }
            if f == "jpg"@ {
                assert(jn[1] == f);
            }
        }
    }
    assert(format_is(subject_format, seq!["webp"@]) == (subject_format == Some("webp"@))) by {
        if let Some(f) = subject_format {
            if seq!["webp"@].contains(f) {
                let k = choose|k: int| 0 <= k < 1 && seq!["webp"@][k] == f;
            }
            if f == "webp"@ {
                assert(seq!["webp"@][0] == f);
            }
        }
    }
    assert(format_is(subject_format, seq!["avif"@]) == (subject_format == Some("avif"@))) by {
        if let Some(f) = subject_format {
            if seq!["avif"@].contains(f) {
                let k = choose|k: int| 0 <= k < 1 && seq!["avif"@][k] == f;
            }
            if f == "avif"@ {
                assert(seq!["avif"@][0] == f);
            }
        }
    }
    assert(spec_avif_ids() =~= seq!["avif-rav1e"@]) by {
        assert(spec_supported_avif_encoders()[0].spec_id() == "avif-rav1e"@);
    }
    let c = spec_comparison_candidates(subject_format, include_same, include_other);
    let ga = if group_included(format_is(subject_format, jn), include_same, include_other) {
        seq![moz, jli]
    } else {
        Seq::<Seq<char>>::empty()
    };
    let gb = if group_included(format_is(subject_format, seq!["webp"@]), include_same, include_other) {
        seq!["webp"@]
    } else {
        Seq::<Seq<char>>::empty()
    };
    let gc = if group_included(format_is(subject_format, seq!["avif"@]), include_same, include_other) {
        spec_avif_ids()
    } else {
        Seq::<Seq<char>>::empty()
    };
    assert(c == ga + gb + gc);
    let names = seq!["mozjpeg-420-prog"@, "jpegli-420-prog"@, "webp"@, "avif-rav1e"@];
    assert forall|k: int| 0 <= k < 4 implies #[trigger] c.contains(names[k]) == (ga.contains(names[k])
        || gb.contains(names[k]) || gc.contains(names[k])) by {
        lemma_concat_contains(ga + gb, gc, names[k]);
        lemma_concat_contains(ga, gb, names[k]);
    }
    assert forall|k: int| 0 <= k < 4 implies #[trigger] remove_all(c, exclude).contains(names[k]) == (c.contains(
        names[k]) && names[k] != exclude) by {
        lemma_remove_all_contains(c, exclude, names[k]);
    }
    assert(names[0] == "mozjpeg-420-prog"@ && names[1] == "jpegli-420-prog"@ && names[2] == "webp"@ && names[3]
        == "avif-rav1e"@);
    assert(ga.contains(moz) == (ga.len() > 0)) by {
        if ga.len() > 0 {
            assert(ga[0] == moz);
        }
    }
    assert(ga.contains(jli) == (ga.len() > 0)) by {
        if ga.len() > 0 {
            assert(ga[1] == jli);
        }
    }
    assert(gb.contains("webp"@) == (gb.len() > 0)) by {
        if gb.len() > 0 {
            assert(gb[0] == "webp"@);
        }
    }
    assert(gc.contains("avif-rav1e"@) == (gc.len() > 0)) by {
        if gc.len() > 0 {
            assert(gc[0] == "avif-rav1e"@);
        }
    }
    assert(!ga.contains("webp"@) && !ga.contains("avif-rav1e"@));
    assert(moz.len() == 16 && jli.len() == 15 && "webp"@.len() == 4 && "avif-rav1e"@.len() == 10);
    assert forall|x: Seq<char>| gb.contains(x) implies x == "webp"@ by {
        let k = choose|k: int| 0 <= k < gb.len() && gb[k] == x;
    }
    assert forall|x: Seq<char>| gc.contains(x) implies x == "avif-rav1e"@ by {
        let k = choose|k: int| 0 <= k < gc.len() && gc[k] == x;
    }
    assert(!gb.contains(moz) && !gb.contains(jli) && !gb.contains("avif-rav1e"@));
    assert(!gc.contains(moz) && !gc.contains(jli) && !gc.contains("webp"@));
    let r = remove_all(c, exclude);
    lemma_remove_all_excludes(c, exclude);
    assert forall|i: int| 0 <= i < r.len() implies #[trigger] r[i] == "mozjpeg-420-prog"@ || r[i]
        == "jpegli-420-prog"@ || r[i] == "webp"@ || r[i] == "avif-rav1e"@ by {
        assert(c.contains(r[i]));
        let k = choose|k: int| 0 <= k < c.len() && c[k] == r[i];
        if k < ga.len() {
            assert(c[k] == ga[k]);
        } else if k < ga.len() + gb.len() {
            assert(c[k] == gb[k - ga.len()]);
        } else {
            assert(c[k] == gc[k - ga.len() - gb.len()]);
        }
    }
}

/// With neither same-format nor other-format codecs included, nothing is
/// compared.
pub proof fn lemma_no_groups_no_comparison(subject_format: Option<Seq<char>>, exclude: Seq<char>)
    ensures
        remove_all(spec_comparison_candidates(subject_format, false, false), exclude).len() == 0,
{
    assert(spec_comparison_candidates(subject_format, false, false) =~= Seq::<Seq<char>>::empty());
}


/// The codecs whose BD-rate against the subject is computed: those with at
/// least two Pareto points, other than the subject, and none at all unless
/// the subject itself has at least two.
pub open spec fn is_bd_partner(point_codecs: Seq<Seq<char>>, subject: Seq<char>, c: Seq<char>) -> bool {
    &&& occurrences(point_codecs, subject) >= 2
    &&& c != subject
    &&& occurrences(point_codecs, c) >= 2
}

/// The codecs to compute a BD-rate for, given the codec of each Pareto
/// point, each listed once.
pub fn bd_rate_partners(point_codecs: &Vec<String>, subject: &str) -> (r: Vec<String>)
    ensures
        forall|i: int, j: int| 0 <= i < j < r@.len() ==> r@[i]@ != r@[j]@,
        forall|i: int| 0 <= i < r@.len() ==> is_bd_partner(strings_view(point_codecs@), subject@, #[trigger] r@[i]@),
        forall|j: int| 0 <= j < point_codecs@.len() && is_bd_partner(strings_view(point_codecs@), subject@, #[trigger] point_codecs@[j]@)
            ==> exists|i: int| 0 <= i < r@.len() && r@[i]@ == point_codecs@[j]@,
{
    let ghost kv = strings_view(point_codecs@);
    let table = count_by_key(point_codecs);
    let ghost tv = counts_view(table@);
    let mut subject_count: usize = 0;
    let mut k: usize = 0;
    while k < table.len()
        invariant
            tv == counts_view(table@),
            is_count_table(kv, tv),
            k <= table@.len(),
            subject_count == (if exists|x: int| 0 <= x < k && tv[x].0 == subject@ { occurrences(kv, subject@) } else { 0 }),
        decreases table@.len() - k,
    {
        if crate::text::str_eq(table[k].0.as_str(), subject) {
            assert(tv[k as int].0 == table@[k as int].0@);
            subject_count = table[k].1;
        }
        k = k + 1;
    }
    proof {
        if !(exists|x: int| 0 <= x < tv.len() && tv[x].0 == subject@) {
            if kv.contains(subject@) {
                let j = choose|j: int| 0 <= j < kv.len() && kv[j] == subject@;
                assert(listed(tv, kv[j]));
            }
            lemma_occurrences_absent(kv, subject@);
        }
    }
    let mut out: Vec<String> = Vec::new();
    if subject_count < 2 {
        return out;
    }
    let mut k: usize = 0;
    while k < table.len()
        invariant
            tv == counts_view(table@),
            is_count_table(kv, tv),
            occurrences(kv, subject@) >= 2,
            k <= table@.len(),
            out@.len() <= k,
            forall|i: int| 0 <= i < out@.len() ==> exists|x: int| 0 <= x < k && tv[x].0 == #[trigger] out@[i]@,
            forall|i: int, j: int| 0 <= i < j < out@.len() ==> out@[i]@ != out@[j]@,
            forall|i: int| 0 <= i < out@.len() ==> is_bd_partner(kv, subject@, #[trigger] out@[i]@),
            forall|x: int| 0 <= x < k && is_bd_partner(kv, subject@, tv[x].0) ==> exists|i: int| 0 <= i < out@.len() && #[trigger] out@[i]@ == tv[x].0,
        decreases table@.len() - k,
    {
        assert(tv[k as int].0 == table@[k as int].0@ && tv[k as int].1 == table@[k as int].1 as nat);
        if table[k].1 >= 2 && !crate::text::str_eq(table[k].0.as_str(), subject) {
            let name = table[k].0.clone();
            let ghost before = out@;
            out.push(name);
            proof {
                assert(out@[before.len() as int]@ == tv[k as int].0);
                assert forall|i: int, j: int| 0 <= i < j < out@.len() implies out@[i]@ != out@[j]@ by {
                    if j == before.len() {
                        let x = choose|x: int| 0 <= x < k && tv[x].0 == #[trigger] out@[i]@;
                        assert(out@[i] == before[i]);
                    }
                }
                assert forall|x: int| 0 <= x < k + 1 && is_bd_partner(kv, subject@, tv[x].0) implies exists|i: int| 0 <= i < out@.len() && #[trigger] out@[i]@ == tv[x].0 by {
                    if x == k {
                        assert(out@[before.len() as int]@ == tv[x].0);
                    } else {
                        let i = choose|i: int| 0 <= i < before.len() && #[trigger] before[i]@ == tv[x].0;
                        assert(out@[i] == before[i]);
                    }
                }
                assert forall|i: int| 0 <= i < out@.len() implies exists|x: int| 0 <= x < k + 1 && tv[x].0 == #[trigger] out@[i]@ by {
                    if i == before.len() {
                        assert(tv[k as int].0 == out@[i]@);
                    } else {
                        assert(out@[i] == before[i]);
                    }
                }
            }
        }
        k = k + 1;
    }
    proof {
        assert forall|j: int| 0 <= j < point_codecs@.len() && is_bd_partner(kv, subject@, #[trigger] point_codecs@[j]@)
            implies exists|i: int| 0 <= i < out@.len() && out@[i]@ == point_codecs@[j]@ by {
            assert(kv[j] == point_codecs@[j]@);
            assert(listed(tv, kv[j]));
            let x = choose|x: int| 0 <= x < tv.len() && tv[x].0 == kv[j];
            assert(is_bd_partner(kv, subject@, tv[x].0));
        }
    }
    out
}

/// The positions of the Pareto points that belong to `codec`, in order:
/// the subject's rate-distortion curve when `codec` is the subject.
pub fn points_of_codec(point_codecs: &Vec<String>, codec: &str) -> (r: Vec<usize>)
    ensures
        forall|i: int, j: int| 0 <= i < j < r@.len() ==> r@[i] < r@[j],
        forall|i: int| 0 <= i < r@.len() ==> #[trigger] r@[i] < point_codecs@.len() && point_codecs@[r@[i] as int]@ == codec@,
        forall|k: int| 0 <= k < point_codecs@.len() && #[trigger] point_codecs@[k]@ == codec@ ==> r@.contains(k as usize),
{
    let mut out: Vec<usize> = Vec::new();
    let mut k: usize = 0;
    while k < point_codecs.len()
        invariant
            k <= point_codecs@.len(),
            forall|i: int, j: int| 0 <= i < j < out@.len() ==> out@[i] < out@[j],
            forall|i: int| 0 <= i < out@.len() ==> #[trigger] out@[i] < k && point_codecs@[out@[i] as int]@ == codec@,
            forall|x: int| 0 <= x < k && #[trigger] point_codecs@[x]@ == codec@ ==> out@.contains(x as usize),
        decreases point_codecs@.len() - k,
    {
        if crate::text::str_eq(point_codecs[k].as_str(), codec) {
            let ghost before = out@;
            out.push(k);
            proof {
                assert(out@[before.len() as int] == k);
                assert forall|x: int| 0 <= x < k + 1 && #[trigger] point_codecs@[x]@ == codec@ implies out@.contains(x as usize) by {
                    if x < k {
                        let i = choose|i: int| 0 <= i < before.len() && before[i] == x as usize;
                        assert(out@[i] == x as usize);
                    }
                }
            }
        }
        k = k + 1;
    }
    out
}

/// Whether the subject codec has a point on the Pareto front.
pub fn subject_on_pareto(point_codecs: &Vec<String>, subject: &str) -> (r: bool)
    ensures
        r == exists|k: int| 0 <= k < point_codecs@.len() && #[trigger] point_codecs@[k]@ == subject@,
{
    let mut k: usize = 0;
    while k < point_codecs.len()
        invariant
            k <= point_codecs@.len(),
            forall|x: int| 0 <= x < k ==> #[trigger] point_codecs@[x]@ != subject@,
        decreases point_codecs@.len() - k,
    {
        if crate::text::str_eq(point_codecs[k].as_str(), subject) {
            return true;
        }
        k = k + 1;
    }
    false
}

/// Which codecs a self-comparison takes in and how many images it runs:
/// the options of a comparison that do not concern metrics.
#[derive(Debug, Clone, Copy, PartialEq, Eq, Structural)]
pub struct CompareScope {
    /// Whether other codecs of the subject's format take part.
    pub include_same_format: bool,
    /// Whether codecs of other formats take part.
    pub include_other_formats: bool,
    /// The largest number of images to process, if limited.
    pub limit: Option<usize>,
    /// Whether results of excluded codecs are deleted afterwards.
    pub delete_excluded: bool,
}

impl Default for CompareScope {
    /// Every codec takes part, on every image.
    fn default() -> (r: Self)
        ensures
            r == (CompareScope { include_same_format: true, include_other_formats: true, limit: None, delete_excluded: false }),
    {
        CompareScope { include_same_format: true, include_other_formats: true, limit: None, delete_excluded: false }
    }
}

impl CompareScope {
    /// Only compare against same-format codecs.
    pub fn same_format_only(self) -> (r: Self)
        ensures
            r == (CompareScope { include_same_format: true, include_other_formats: false, ..self }),
    {
        CompareScope { include_same_format: true, include_other_formats: false, ..self }
    }

    /// Only compare against different-format codecs.
    pub fn other_formats_only(self) -> (r: Self)
        ensures
            r == (CompareScope { include_same_format: false, include_other_formats: true, ..self }),
    {
        CompareScope { include_same_format: false, include_other_formats: true, ..self }
    }

    /// Limit the number of images to process.
    pub fn with_limit(self, limit: usize) -> (r: Self)
        ensures
            r == (CompareScope { limit: Some(limit), ..self }),
    {
        CompareScope { limit: Some(limit), ..self }
    }

    /// Delete results for excluded codecs after comparison.
    pub fn delete_excluded(self) -> (r: Self)
        ensures
            r == (CompareScope { delete_excluded: true, ..self }),
    {
        CompareScope { delete_excluded: true, ..self }
    }

    /// Whether any comparison codec is registered besides the subject.
    pub fn compares_any(&self) -> (r: bool)
        ensures
            r == (self.include_same_format || self.include_other_formats),
    {
        self.include_same_format || self.include_other_formats
    }

    /// The codecs that `subject_format` is compared against under this
    /// scope, the subject itself left out.
    pub fn comparison_codecs(&self, subject_format: Option<&str>, subject: &str) -> (r: Vec<CodecChoice>)
        ensures
            choice_ids(r@) == remove_all(
                spec_comparison_candidates(
                    match subject_format { Some(f) => Some(f@), None => None },
                    self.include_same_format,
                    self.include_other_formats,
                ),
                subject@,
            ),
    {
        comparison_codecs(subject_format, self.include_same_format, self.include_other_formats, subject)
    }
}

} // verus!
