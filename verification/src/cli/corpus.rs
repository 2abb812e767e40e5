//! Corpus commands of the corpus tool: the steps each performs, which images
//! a listing shows, and the per-format counts of an info report.
use vstd::prelude::*;
use crate::cli::compare_args::spec_to_lowercase;
use crate::cli::sparse::strings_view;
use crate::text::{eq_ignore_ascii_case, str_eq_ignore_ascii_case};
use codec_eval::corpus::ImageCategory;

verus! {

/// The index of the category that a name selects, in the order of
/// codec-eval's `ImageCategory::all()` (photo, illustration, text,
/// screenshot, high frequency, low frequency, gradient, pattern, CGI,
/// scientific, other), matching the lower-cased name loosely.
pub open spec fn spec_category_index(name: Seq<char>) -> Option<u8> {
    let s = spec_to_lowercase(name);
    if s == "photo"@ || s == "photograph"@ || s == "photos"@ {
        Some(0)
    } else if s == "illustration"@ || s == "drawing"@ || s == "art"@ || s == "artwork"@ {
        Some(1)
    } else if s == "text"@ || s == "document"@ || s == "docs"@ {
        Some(2)
    } else if s == "screenshot"@ || s == "screenshots"@ || s == "ui"@ {
        Some(3)
    } else if s == "high_frequency"@ || s == "highfreq"@ || s == "texture"@ || s == "textures"@ {
        Some(4)
    } else if s == "low_frequency"@ || s == "lowfreq"@ || s == "smooth"@ {
        Some(5)
    } else if s == "gradient"@ || s == "gradients"@ {
        Some(6)
    } else if s == "pattern"@ || s == "patterns"@ {
        Some(7)
    } else if s == "cgi"@ || s == "render"@ || s == "3d"@ {
        Some(8)
    } else if s == "scientific"@ || s == "medical"@ || s == "science"@ {
        Some(9)
    } else if s == "other"@ || s == "misc"@ || s == "unknown"@ {
        Some(10)
    } else {
        None
    }
}

/// Calls codec-eval's `ImageCategory` parser (`str::parse`, which lower-cases
/// the name and matches it against each category's names) and gives the
/// category's index in `ImageCategory::all()`.
#[verifier::external_body]
pub(crate) fn parse_category(name: &str) -> (r: Option<u8>)
    ensures
        r == spec_category_index(name@),
{
    match name.parse::<ImageCategory>() {
        Ok(ImageCategory::Photo) => Some(0),
        Ok(ImageCategory::Illustration) => Some(1),
        Ok(ImageCategory::Text) => Some(2),
        Ok(ImageCategory::Screenshot) => Some(3),
        Ok(ImageCategory::HighFrequency) => Some(4),
        Ok(ImageCategory::LowFrequency) => Some(5),
        Ok(ImageCategory::Gradient) => Some(6),
        Ok(ImageCategory::Pattern) => Some(7),
        Ok(ImageCategory::Cgi) => Some(8),
        Ok(ImageCategory::Scientific) => Some(9),
        Ok(ImageCategory::Other) => Some(10),
        Err(_) => None,
    }
}

/// What a listing needs to know of one corpus image.
pub struct ImageEntry {
    /// The category's index in `ImageCategory::all()`, if classified.
    pub category: Option<u8>,
    /// The format detected from the file extension.
    pub format: String,
    pub width: u32,
    pub height: u32,
}

/// The filters of a listing.
pub struct ImageFilter {
    /// Only images of this category (by index), if given.
    pub category: Option<u8>,
    /// Only images of this format (ASCII case-insensitive), if given.
    pub format: Option<String>,
    pub min_width: Option<u32>,
    pub min_height: Option<u32>,
}

/// Whether a listing shows an image.
pub open spec fn passes(img: ImageEntry, f: ImageFilter) -> bool {
    &&& (f.category matches Some(c) ==> img.category == Some(c))
    &&& (f.format matches Some(fmt) ==> eq_ignore_ascii_case(img.format@, fmt@))
    &&& (f.min_width matches Some(w) ==> img.width >= w)
    &&& (f.min_height matches Some(h) ==> img.height >= h)
}

/// The positions of the images that pass `f`, in order.
pub open spec fn passing_indices(images: Seq<ImageEntry>, f: ImageFilter) -> Seq<usize>
    decreases images.len(),
{
    if images.len() == 0 {
        Seq::empty()
    } else {
        let rest = passing_indices(images.drop_last(), f);
        if passes(images.last(), f) { rest.push((images.len() - 1) as usize) } else { rest }
    }
}

/// A listing shows, in corpus order and each once, exactly the images that
/// meet every filter given: the filter's category when one is given (an
/// image of another category, or unclassified, is never shown under it),
/// the format ignoring ASCII case, and the minimum width and height.
pub proof fn lemma_listing_meets_filters(images: Seq<ImageEntry>, f: ImageFilter)
    requires
        images.len() <= usize::MAX,
    ensures
        forall|a: int, b: int|
            0 <= a < b < passing_indices(images, f).len() ==> passing_indices(images, f)[a] < passing_indices(
                images,
                f,
            )[b],
        forall|k: int|
            #![trigger images[k]]
            0 <= k < images.len() ==> ((exists|j: int|
                0 <= j < passing_indices(images, f).len() && passing_indices(images, f)[j] as int == k) <==> {
                &&& (f.category matches Some(c) ==> images[k].category == Some(c))
                &&& (f.format matches Some(fmt) ==> eq_ignore_ascii_case(images[k].format@, fmt@))
                &&& (f.min_width matches Some(w) ==> images[k].width >= w)
                &&& (f.min_height matches Some(h) ==> images[k].height >= h)
            }),
        forall|j: int| 0 <= j < passing_indices(images, f).len() ==> passing_indices(images, f)[j] < images.len(),
    decreases images.len(),
{
    if images.len() > 0 {
        let pre = images.drop_last();
        lemma_listing_meets_filters(pre, f);
        let rest = passing_indices(pre, f);
        let n = (images.len() - 1) as usize;
        assert(n as int == pre.len());
        let all = passing_indices(images, f);
        if passes(images.last(), f) {
            assert(all == rest.push(n));
        } else {
            assert(all == rest);
        }
        assert forall|j: int| 0 <= j < all.len() implies all[j] < images.len() by {
            if j < rest.len() {
                assert(all[j] == rest[j]);
            }
        }
        assert forall|x: int, y: int| 0 <= x < y < all.len() implies all[x] < all[y] by {
            assert(all[x] == rest[x]);
            if y < rest.len() {
                assert(all[y] == rest[y]);
            } else {
                assert(all[y] == n);
                assert(rest[x] < pre.len());
            }
        }
        assert forall|k: int| #![trigger images[k]] 0 <= k < images.len() implies ((exists|j: int|
            0 <= j < all.len() && all[j] as int == k) <==> passes(images[k], f)) by {
            if k < pre.len() {
                assert(pre[k] == images[k]);
                if exists|j: int| 0 <= j < all.len() && all[j] as int == k {
                    let j = choose|j: int| 0 <= j < all.len() && all[j] as int == k;
                    if j < rest.len() {
                        assert(all[j] == rest[j]);
                    } else {
                        assert(all[j] == n);
                    }
                }
                if exists|j: int| 0 <= j < rest.len() && rest[j] as int == k {
                    let j = choose|j: int| 0 <= j < rest.len() && rest[j] as int == k;
                    assert(all[j] == rest[j]);
                }
            } else {
                assert(images.last() == images[k]);
                if passes(images.last(), f) {
                    assert(all[rest.len() as int] == n);
                } else {
                    if exists|j: int| 0 <= j < all.len() && all[j] as int == k {
                        let j = choose|j: int| 0 <= j < all.len() && all[j] as int == k;
                        assert(rest[j] < pre.len());
                    }
                }
            }
        }
    }
}

fn image_passes(img: &ImageEntry, f: &ImageFilter) -> (r: bool)
    ensures
        r == passes(*img, *f),
{
    if let Some(c) = f.category {
        if img.category != Some(c) {
            return false;
        }
    }
    if let Some(fmt) = &f.format {
        if !str_eq_ignore_ascii_case(img.format.as_str(), fmt.as_str()) {
            return false;
        }
    }
    if let Some(w) = f.min_width {
        if img.width < w {
            return false;
        }
    }
    if let Some(h) = f.min_height {
        if img.height < h {
            return false;
        }
    }
    true
}

/// The positions of the images that a listing shows, in corpus order.
pub fn select_images(images: &Vec<ImageEntry>, filter: &ImageFilter) -> (r: Vec<usize>)
    ensures
        r@ == passing_indices(images@, *filter),
{
    let mut out: Vec<usize> = Vec::new();
    let mut i: usize = 0;
    while i < images.len()
        invariant
            i <= images@.len(),
            out@ == passing_indices(images@.subrange(0, i as int), *filter),
        decreases images@.len() - i,
    {
        proof {
            let pre = images@.subrange(0, i + 1);
            assert(pre.drop_last() =~= images@.subrange(0, i as int));
            assert(pre.last() == images@[i as int]);
        }
        if image_passes(&images[i], filter) {
            out.push(i);
        }
        i = i + 1;
    }
    assert(images@.subrange(0, i as int) =~= images@);
    out
}

/// The number of times `k` occurs in `s`.
pub open spec fn occurrences(s: Seq<Seq<char>>, k: Seq<char>) -> nat
    decreases s.len(),
{
    if s.len() == 0 {
        0
    } else {
        occurrences(s.drop_last(), k) + if s.last() == k { 1nat } else { 0nat }
    }
}

/// `k` has an entry in `counts`.
pub open spec fn listed(counts: Seq<(Seq<char>, nat)>, k: Seq<char>) -> bool {
    exists|i: int| 0 <= i < counts.len() && counts[i].0 == k
}

/// `counts` lists each distinct key of `keys` once, with its number of
/// occurrences, most frequent first (keys of equal count in any order).
pub open spec fn is_count_table(keys: Seq<Seq<char>>, counts: Seq<(Seq<char>, nat)>) -> bool {
    &&& forall|i: int| 0 <= i < counts.len() ==> #[trigger] keys.contains(counts[i].0)
    &&& forall|i: int| 0 <= i < counts.len() ==> #[trigger] counts[i].1 == occurrences(keys, counts[i].0)
    &&& forall|j: int| 0 <= j < keys.len() ==> #[trigger] listed(counts, keys[j])
    &&& forall|i: int, j: int| 0 <= i < j < counts.len() ==> counts[i].0 != counts[j].0
    &&& forall|i: int, j: int| 0 <= i < j < counts.len() ==> counts[i].1 >= counts[j].1
}

/// The view of a count table.
pub open spec fn counts_view(v: Seq<(String, usize)>) -> Seq<(Seq<char>, nat)> {
    v.map_values(|e: (String, usize)| (e.0@, e.1 as nat))
}

pub(crate) proof fn lemma_occurrences_push(s: Seq<Seq<char>>, x: Seq<char>, k: Seq<char>)
    ensures
        occurrences(s.push(x), k) == occurrences(s, k) + if x == k { 1nat } else { 0nat },
{
    assert(s.push(x).drop_last() =~= s);
}

pub(crate) proof fn lemma_occurrences_bound(s: Seq<Seq<char>>, k: Seq<char>)
    ensures
        occurrences(s, k) <= s.len(),
    decreases s.len(),
{
    if s.len() > 0 {
        lemma_occurrences_bound(s.drop_last(), k);
    }
}

proof fn lemma_contains_push(s: Seq<Seq<char>>, x: Seq<char>, k: Seq<char>)
    ensures
        s.push(x).contains(k) == (s.contains(k) || x == k),
{
    let q = s.push(x);
    if q.contains(k) {
        let j = choose|j: int| 0 <= j < q.len() && q[j] == k;
        if j < s.len() {
            assert(s[j] == k);
        }
    }
    if s.contains(k) {
        let j = choose|j: int| 0 <= j < s.len() && s[j] == k;
        assert(q[j] == k);
    }
    if x == k {
        assert(q[s.len() as int] == k);
    }
}

/// The counting state: distinct keys seen so far with their counts, most
/// frequent first.
spec fn counting_inv(prev: Seq<Seq<char>>, ks: Seq<Seq<char>>, cs: Seq<usize>) -> bool {
    &&& ks.len() == cs.len()
    &&& forall|a: int| 0 <= a < ks.len() ==> #[trigger] prev.contains(ks[a])
    &&& forall|a: int| 0 <= a < ks.len() ==> #[trigger] cs[a] as nat == occurrences(prev, ks[a])
    &&& exists|pos: Seq<int>| covers(ks, prev, pos)
    &&& forall|a: int, b: int| 0 <= a < ks.len() && 0 <= b < ks.len() && a != b ==> ks[a] != ks[b]
    &&& forall|a: int, b: int| 0 <= a < b < cs.len() ==> cs[a] >= cs[b]
    &&& forall|a: int| 0 <= a < cs.len() ==> #[trigger] cs[a] >= 1
}

/// Every element of `prev` occurs in `ks`, at the position that `pos` gives.
spec fn covers(ks: Seq<Seq<char>>, prev: Seq<Seq<char>>, pos: Seq<int>) -> bool {
    &&& pos.len() == prev.len()
    &&& forall|j: int| 0 <= j < prev.len() ==> 0 <= #[trigger] pos[j] < ks.len() && ks[pos[j]] == prev[j]
}

proof fn lemma_count_new_key(prev: Seq<Seq<char>>, ks: Seq<Seq<char>>, cs: Seq<usize>, key: Seq<char>)
    requires
        counting_inv(prev, ks, cs),
        forall|a: int| 0 <= a < ks.len() ==> ks[a] != key,
    ensures
        counting_inv(prev.push(key), ks.push(key), cs.push(1)),
{
    let p2 = prev.push(key);
    let k2 = ks.push(key);
    let c2 = cs.push(1usize);
    let pos = choose|pos: Seq<int>| covers(ks, prev, pos);
    assert(!prev.contains(key)) by {
        if prev.contains(key) {
            let j = choose|j: int| 0 <= j < prev.len() && prev[j] == key;
            assert(ks[pos[j]] == key);
        }
    }
    assert forall|a: int| 0 <= a < k2.len() implies #[trigger] p2.contains(k2[a]) by {
        lemma_contains_push(prev, key, k2[a]);
    }
    assert forall|a: int| 0 <= a < k2.len() implies #[trigger] c2[a] as nat == occurrences(p2, k2[a]) by {
        lemma_occurrences_push(prev, key, k2[a]);
        if a == ks.len() {
            lemma_occurrences_absent(prev, key);
        } else {
            assert(k2[a] == ks[a]);
            assert(c2[a] == cs[a]);
        }
    }
    let pos2 = pos.push(ks.len() as int);
    assert(covers(k2, p2, pos2)) by {
        assert forall|j: int| 0 <= j < p2.len() implies 0 <= #[trigger] pos2[j] < k2.len() && k2[pos2[j]] == p2[j] by {
            if j < prev.len() {
                assert(pos2[j] == pos[j]);
            }
        }
    }
    assert forall|a: int, b: int| 0 <= a < k2.len() && 0 <= b < k2.len() && a != b implies k2[a] != k2[b] by {
        if a < ks.len() && b < ks.len() {
            assert(k2[a] == ks[a] && k2[b] == ks[b]);
        }
    }
    assert forall|a: int, b: int| 0 <= a < b < c2.len() implies c2[a] >= c2[b] by {
        if b < cs.len() {
            assert(c2[a] == cs[a] && c2[b] == cs[b]);
        } else {
            assert(c2[a] == cs[a]);
            assert(cs[a] >= 1);
        }
    }
    assert forall|a: int| 0 <= a < c2.len() implies #[trigger] c2[a] >= 1 by {
        if a < cs.len() {
            assert(c2[a] == cs[a]);
        }
    }
}

pub proof fn lemma_occurrences_absent(s: Seq<Seq<char>>, k: Seq<char>)
    requires
        !s.contains(k),
    ensures
        occurrences(s, k) == 0,
    decreases s.len(),
{
    if s.len() > 0 {
        assert(!s.drop_last().contains(k)) by {
            if s.drop_last().contains(k) {
                let j = choose|j: int| 0 <= j < s.drop_last().len() && s.drop_last()[j] == k;
                assert(s[j] == k);
            }
        }
        assert(s.last() != k) by {
            if s.last() == k {
                assert(s[s.len() - 1] == k);
            }
        }
        lemma_occurrences_absent(s.drop_last(), k);
    }
}

proof fn lemma_count_old_key(
    prev: Seq<Seq<char>>,
    ks: Seq<Seq<char>>,
    cs: Seq<usize>,
    key: Seq<char>,
    a: int,
    f: int,
)
    requires
        counting_inv(prev, ks, cs),
        0 <= f <= a < ks.len(),
        ks[a] == key,
        cs[f] == cs[a],
        forall|b: int| 0 <= b < f ==> cs[b] > cs[a],
        cs[a] < usize::MAX,
    ensures
        counting_inv(
            prev.push(key),
            ks.update(f, ks[a]).update(a, ks[f]),
            cs.update(a, cs[f]).update(f, (cs[a] + 1) as usize),
        ),
{
    let p2 = prev.push(key);
    let k2 = ks.update(f, ks[a]).update(a, ks[f]);
    let c2 = cs.update(a, cs[f]).update(f, (cs[a] + 1) as usize);
    // Position x of the new table holds the entry that was at sigma(x).
    assert forall|x: int| 0 <= x < k2.len() implies #[trigger] k2[x] == ks[if x == f { a } else if x == a { f } else { x }]
        && c2[x] as nat == cs[if x == f { a } else if x == a { f } else { x }] + if x == f { 1nat } else { 0nat } by {
        if x == f {
            assert(k2[x] == ks[a]);
            assert(c2[x] == cs[a] + 1);
        } else if x == a {
            assert(k2[x] == ks[f]);
            assert(c2[x] == cs[f]);
        } else {
            assert(k2[x] == ks[x]);
            assert(c2[x] == cs[x]);
        }
    }
    assert forall|x: int| 0 <= x < k2.len() implies #[trigger] p2.contains(k2[x]) by {
        let y = if x == f { a } else if x == a { f } else { x };
        lemma_contains_push(prev, key, k2[x]);
        assert(k2[x] == ks[y]);
    }
    assert forall|x: int| 0 <= x < k2.len() implies #[trigger] c2[x] as nat == occurrences(p2, k2[x]) by {
        let y = if x == f { a } else if x == a { f } else { x };
        lemma_occurrences_push(prev, key, k2[x]);
        assert(k2[x] == ks[y]);
        if y != a {
            assert(ks[y] != ks[a]);
        }
    }
    let pos = choose|pos: Seq<int>| covers(ks, prev, pos);
    let sw = |y: int| if y == f { a } else if y == a { f } else { y };
    let pos2 = pos.map_values(|y: int| if y == f { a } else if y == a { f } else { y }).push(f);
    assert(covers(k2, p2, pos2)) by {
        assert forall|j: int| 0 <= j < p2.len() implies 0 <= #[trigger] pos2[j] < k2.len() && k2[pos2[j]] == p2[j] by {
            if j < prev.len() {
                let y = pos[j];
                assert(pos2[j] == (if y == f { a } else if y == a { f } else { y }));
                assert(k2[pos2[j]] == ks[y]);
            } else {
                assert(pos2[j] == f);
            }
        }
    }
    assert forall|x: int, z: int| 0 <= x < k2.len() && 0 <= z < k2.len() && x != z implies k2[x] != k2[z] by {
        let y = if x == f { a } else if x == a { f } else { x };
        let w = if z == f { a } else if z == a { f } else { z };
        assert(k2[x] == ks[y]);
        assert(k2[z] == ks[w]);
    }
    assert forall|x: int, z: int| 0 <= x < z < c2.len() implies c2[x] >= c2[z] by {
        let c = cs[a];
        if x == f {
            assert(c2[x] == c + 1);
            if z == a {
                assert(c2[z] == c);
            } else {
                assert(c2[z] == cs[z]);
                assert(cs[f] >= cs[z]);
            }
        } else if z == f {
            assert(x < f);
            assert(cs[x] > c);
            assert(c2[x] == cs[x]);
        } else if x == a {
            assert(c2[x] == c);
            assert(c2[z] == cs[z]);
            assert(cs[a] >= cs[z]);
        } else if z == a {
            assert(c2[z] == c);
            assert(c2[x] == cs[x]);
            assert(cs[x] >= cs[a]);
        } else {
            assert(c2[x] == cs[x] && c2[z] == cs[z]);
        }
    }
    assert forall|x: int| 0 <= x < c2.len() implies #[trigger] c2[x] >= 1 by {
        if x == f {
        } else if x == a {
            assert(c2[x] == cs[f]);
        } else {
            assert(c2[x] == cs[x]);
        }
    }
}

/// Count how often each key occurs, most frequent first.
pub fn count_by_key(keys: &Vec<String>) -> (r: Vec<(String, usize)>)
    ensures
        is_count_table(strings_view(keys@), counts_view(r@)),
{
    let ghost kv = strings_view(keys@);
    let mut ks: Vec<String> = Vec::new();
    let mut cs: Vec<usize> = Vec::new();
    let mut i: usize = 0;
    assert(kv.subrange(0, 0) =~= Seq::<Seq<char>>::empty());
    assert(covers(strings_view(ks@), kv.subrange(0, 0), Seq::<int>::empty()));
    while i < keys.len()
        invariant
            kv == strings_view(keys@),
            i <= keys@.len(),
            counting_inv(kv.subrange(0, i as int), strings_view(ks@), cs@),
        decreases keys@.len() - i,
    {
        let ghost prev = kv.subrange(0, i as int);
        let ghost key = kv[i as int];
        assert(kv.subrange(0, i + 1) =~= prev.push(key));
        assert(keys@[i as int]@ == key);
        let mut a: usize = 0;
        let mut found = false;
        while a < ks.len()
            invariant_except_break
                !found,
            invariant
                a <= ks@.len(),
                i < keys@.len(),
                forall|b: int| 0 <= b < a ==> #[trigger] ks@[b]@ != key,
                keys@[i as int]@ == key,
            ensures
                found ==> a < ks@.len() && ks@[a as int]@ == key,
                !found ==> forall|b: int| 0 <= b < ks@.len() ==> #[trigger] ks@[b]@ != key,
            decreases ks@.len() - a,
        {
            if crate::text::str_eq(ks[a].as_str(), keys[i].as_str()) {
                found = true;
                break;
            }
            a = a + 1;
        }
        let ghost kso = strings_view(ks@);
        let ghost cso = cs@;
        if found {
            let c = cs[a];
            proof {
                assert(kso[a as int] == key);
                lemma_occurrences_bound(prev, key);
            }
            let mut f: usize = 0;
            while cs[f] != c
                invariant
                    cs@ == cso,
                    cso.len() == kso.len(),
                    a < cso.len(),
                    c == cso[a as int],
                    f <= a,
                    forall|b: int| 0 <= b < f ==> cso[b] != c,
                decreases a - f,
            {
                f = f + 1;
            }
            proof {
                assert forall|b: int| 0 <= b < f implies cso[b] > cso[a as int] by {
                    assert(cso[b] >= cso[a as int]);
                }
            }
            let kf = ks[f].clone();
            let ka = ks[a].clone();
            ks.set(f, ka);
            ks.set(a, kf);
            cs.set(a, c);
            cs.set(f, c + 1);
            proof {
                lemma_count_old_key(prev, kso, cso, key, a as int, f as int);
                assert(strings_view(ks@) =~= kso.update(f as int, kso[a as int]).update(a as int, kso[f as int]));
                assert(cs@ =~= cso.update(a as int, cso[f as int]).update(f as int, (cso[a as int] + 1) as usize));
            }
        } else {
            ks.push(keys[i].clone());
            cs.push(1);
            proof {
                lemma_count_new_key(prev, kso, cso, key);
                assert(strings_view(ks@) =~= kso.push(key));
            }
        }
        i = i + 1;
    }
    assert(kv.subrange(0, i as int) =~= kv);
    let mut table: Vec<(String, usize)> = Vec::new();
    let mut j: usize = 0;
    while j < ks.len()
        invariant
            ks@.len() == cs@.len(),
            j <= ks@.len(),
            table@.len() == j,
            forall|x: int| 0 <= x < j ==> #[trigger] table@[x].0@ == ks@[x]@ && table@[x].1 == cs@[x],
        decreases ks@.len() - j,
    {
        table.push((ks[j].clone(), cs[j]));
        j = j + 1;
    }
    proof {
        let tv = counts_view(table@);
        let ksv = strings_view(ks@);
        assert forall|x: int| 0 <= x < tv.len() implies #[trigger] tv[x].0 == ksv[x] && tv[x].1 == cs@[x] as nat by {
            assert(table@[x].0@ == ks@[x]@);
        }
        assert forall|jj: int| 0 <= jj < kv.len() implies #[trigger] listed(tv, kv[jj]) by {
            let pos = choose|pos: Seq<int>| covers(ksv, kv, pos);
            let x = pos[jj];
            assert(tv[x].0 == ksv[x]);
        }
        assert forall|x: int| 0 <= x < tv.len() implies #[trigger] kv.contains(tv[x].0) by {
            assert(tv[x].0 == ksv[x]);
        }
        assert forall|x: int| 0 <= x < tv.len() implies #[trigger] tv[x].1 == occurrences(kv, tv[x].0) by {
            assert(tv[x].0 == ksv[x]);
        }
        assert forall|x: int, y: int| 0 <= x < y < tv.len() implies tv[x].0 != tv[y].0 by {
            assert(tv[x].0 == ksv[x]);
            assert(tv[y].0 == ksv[y]);
        }
        assert forall|x: int, y: int| 0 <= x < y < tv.len() implies tv[x].1 >= tv[y].1 by {
            assert(tv[x].1 == cs@[x] as nat);
            assert(tv[y].1 == cs@[y] as nat);
        }
    }
    table
}


/// Corpus commands.
pub enum CorpusAction {
    /// Discover images in a directory.
    Discover { path: String, output: Option<String>, checksums: bool },
    /// Show corpus information.
    Info { path: String },
    /// List images in a corpus.
    List {
        path: String,
        category: Option<String>,
        format: Option<String>,
        min_width: Option<u32>,
        min_height: Option<u32>,
    },
}

/// One step of a corpus command.
pub enum CorpusStep {
    /// Discover the images under `path`.
    Discover { path: String },
    /// Discover the images under `path` if it is a directory, else load the
    /// manifest file at `path`.
    LoadOrDiscover { path: String },
    /// Compute the images' checksums.
    ComputeChecksums,
    /// Print the number of images, their total size and dimension range.
    PrintSummary,
    /// Save the manifest to a file.
    SaveManifest { output: String },
    /// Print the manifest as JSON.
    PrintJson,
    /// Print the corpus information.
    PrintInfo,
    /// Print the images that pass the filter.
    ListImages(ImageFilter),
}

/// What a step holds (the filter's format by its view).
pub enum CorpusStepView {
    Discover { path: Seq<char> },
    LoadOrDiscover { path: Seq<char> },
    ComputeChecksums,
    PrintSummary,
    SaveManifest { output: Seq<char> },
    PrintJson,
    PrintInfo,
    ListImages { category: Option<u8>, format: Option<Seq<char>>, min_width: Option<u32>, min_height: Option<u32> },
}

impl View for CorpusStep {
    type V = CorpusStepView;

    open spec fn view(&self) -> CorpusStepView {
        match self {
            CorpusStep::Discover { path } => CorpusStepView::Discover { path: path@ },
            CorpusStep::LoadOrDiscover { path } => CorpusStepView::LoadOrDiscover { path: path@ },
            CorpusStep::ComputeChecksums => CorpusStepView::ComputeChecksums,
            CorpusStep::PrintSummary => CorpusStepView::PrintSummary,
            CorpusStep::SaveManifest { output } => CorpusStepView::SaveManifest { output: output@ },
            CorpusStep::PrintJson => CorpusStepView::PrintJson,
            CorpusStep::PrintInfo => CorpusStepView::PrintInfo,
            CorpusStep::ListImages(f) => CorpusStepView::ListImages {
                category: f.category,
                format: match &f.format { Some(s) => Some(s@), None => None },
                min_width: f.min_width,
                min_height: f.min_height,
            },
        }
    }
}

/// The views of a sequence of steps.
pub open spec fn corpus_steps_view(v: Seq<CorpusStep>) -> Seq<CorpusStepView> {
    v.map_values(|s: CorpusStep| s@)
}

/// An optional string by its view.
pub open spec fn opt_view(o: Option<String>) -> Option<Seq<char>> {
    match o { Some(s) => Some(s@), None => None }
}

/// The steps of a corpus command. Discovery optionally computes checksums,
/// prints the summary, then saves the manifest where asked or prints it as
/// JSON; info loads (or discovers) the corpus and prints its information; a
/// listing loads it and prints the images that pass the filter, whose
/// category is the one the name parses to (no category filter when the name
/// is unknown).
pub open spec fn spec_corpus_run(action: CorpusAction) -> Seq<CorpusStepView> {
    match action {
        CorpusAction::Discover { path, output, checksums } =>
            seq![CorpusStepView::Discover { path: path@ }]
                + (if checksums { seq![CorpusStepView::ComputeChecksums] } else { Seq::empty() })
                + seq![CorpusStepView::PrintSummary]
                + match output {
                    Some(o) => seq![CorpusStepView::SaveManifest { output: o@ }],
                    None => seq![CorpusStepView::PrintJson],
                },
        CorpusAction::Info { path } => seq![CorpusStepView::LoadOrDiscover { path: path@ }, CorpusStepView::PrintInfo],
        CorpusAction::List { path, category, format, min_width, min_height } => seq![
            CorpusStepView::LoadOrDiscover { path: path@ },
            CorpusStepView::ListImages {
                category: match category {
                    Some(c) => spec_category_index(c@),
                    None => None,
                },
                format: opt_view(format),
                min_width,
                min_height,
            },
        ],
    }
}

fn push_corpus_step(out: &mut Vec<CorpusStep>, step: CorpusStep)
    ensures
        corpus_steps_view(final(out)@) == corpus_steps_view(old(out)@).push(step@),
{
    let ghost v = step@;
    out.push(step);
    assert(corpus_steps_view(out@) =~= corpus_steps_view(old(out)@).push(v));
}

/// The steps that running a corpus command performs, in order; an executor
/// performs them one by one and stops at the first that fails.
pub fn run(action: &CorpusAction) -> (r: Vec<CorpusStep>)
    ensures
        corpus_steps_view(r@) == spec_corpus_run(*action),
{
    let mut out: Vec<CorpusStep> = Vec::new();
    match action {
        CorpusAction::Discover { path, output, checksums } => {
            push_corpus_step(&mut out, CorpusStep::Discover { path: path.clone() });
            if *checksums {
                push_corpus_step(&mut out, CorpusStep::ComputeChecksums);
            }
            push_corpus_step(&mut out, CorpusStep::PrintSummary);
            match output {
                Some(o) => push_corpus_step(&mut out, CorpusStep::SaveManifest { output: o.clone() }),
                None => push_corpus_step(&mut out, CorpusStep::PrintJson),
            }
        },
        CorpusAction::Info { path } => {
            push_corpus_step(&mut out, CorpusStep::LoadOrDiscover { path: path.clone() });
            push_corpus_step(&mut out, CorpusStep::PrintInfo);
        },
        CorpusAction::List { path, category, format, min_width, min_height } => {
            push_corpus_step(&mut out, CorpusStep::LoadOrDiscover { path: path.clone() });
            let cat = match category {
                Some(c) => parse_category(c.as_str()),
                None => None,
            };
            let fmt = match format {
                Some(f) => Some(f.clone()),
                None => None,
            };
            let filter = ImageFilter { category: cat, format: fmt, min_width: *min_width, min_height: *min_height };
            push_corpus_step(&mut out, CorpusStep::ListImages(filter));
        },
    }
    assert(corpus_steps_view(out@) =~= spec_corpus_run(*action));
    out
}

} // verus!
