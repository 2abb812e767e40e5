//! Which source images an evaluation loads from a corpus directory: the PNG
//! and PPM files, in file-name order, at most `limit` of them.
use vstd::prelude::*;
use crate::order::{seq_le, str_le, lemma_seq_le_total, lemma_seq_le_trans};
use crate::text::str_eq;
use crate::cli::iter_config::ends_with;
use crate::cli::compare_args::{spec_to_lowercase, str_to_lowercase};

verus! {

/// The views of a sequence of strings.
pub open spec fn names_view(v: Seq<String>) -> Seq<Seq<char>> {
    v.map_values(|s: String| s@)
}

/// Whether a file name has the extension `ext`, as `Path::extension`
/// splits it: after the last '.', with something before that dot.
pub open spec fn has_extension(name: Seq<char>, ext: Seq<char>) -> bool {
    name.len() > ext.len() + 1 && ends_with(name, seq!['.'] + ext)
}

/// Whether a file is a source image: its extension is "png" or "ppm".
pub open spec fn is_source_file(name: Seq<char>) -> bool {
    has_extension(name, "png"@) || has_extension(name, "ppm"@)
}

/// The names in `s` that are source images, in their order.
pub open spec fn source_files(s: Seq<Seq<char>>) -> Seq<Seq<char>> {
    s.filter(|n: Seq<char>| is_source_file(n))
}

/// Each name sorts before the next, or equals it.
pub open spec fn names_sorted(s: Seq<Seq<char>>) -> bool {
    forall|i: int, j: int| 0 <= i < j < s.len() ==> seq_le(#[trigger] s[i], #[trigger] s[j])
}

/// How many files an evaluation keeps of `found`: all of them when the
/// limit is zero or not exceeded, else `limit`.
pub open spec fn kept_count(found: nat, limit: nat) -> nat {
    if limit > 0 && found > limit { limit } else { found }
}

/// How many of `found` files are kept under `limit` (zero: no limit).
pub fn kept_count_of(found: usize, limit: usize) -> (r: usize)
    ensures
        r == kept_count(found as nat, limit as nat),
{
    if limit > 0 && found > limit { limit } else { found }
}

/// Whether the last characters of `name` are '.' and `ext`, and `name` is
/// longer than that.
fn has_extension_exec(name: &str, ext: &str) -> (r: bool)
    ensures
        r == has_extension(name@, ext@),
{
    let n = name.unicode_len();
    let e = ext.unicode_len();
    if n == 0 || n - 1 <= e {
        return false;
    }
    let tail = name.substring_char(n - e - 1, n);
    let mut dotted = String::from_str(".");
    dotted.append(ext);
    proof {
        reveal_strlit(".");
    }
    assert(dotted@ =~= seq!['.'] + ext@);
    str_eq(tail, dotted.as_str())
}

/// Whether `name` is a PNG or PPM file name.
pub fn is_source_file_name(name: &str) -> (r: bool)
    ensures
        r == is_source_file(name@),
{
    has_extension_exec(name, "png") || has_extension_exec(name, "ppm")
}

/// The position at which `x` goes into the sorted `v`: after every name
/// that sorts before it or equals it.
fn insertion_point(v: &Vec<String>, x: &str) -> (p: usize)
    requires
        names_sorted(names_view(v@)),
    ensures
        p <= v@.len(),
        forall|k: int| 0 <= k < p ==> seq_le(#[trigger] v@[k]@, x@),
        p < v@.len() ==> !seq_le(v@[p as int]@, x@),
{
    let mut p: usize = 0;
    while p < v.len()
        invariant
            p <= v@.len(),
            forall|k: int| 0 <= k < p ==> seq_le(#[trigger] v@[k]@, x@),
        decreases v.len() - p,
    {
        if !str_le(v[p].as_str(), x) {
            return p;
        }
        p = p + 1;
    }
    p
}

/// The source image files among `names`, sorted by name, cut to the first
/// `limit` when `limit` is positive and exceeded.
pub fn select_source_files(names: Vec<String>, limit: usize) -> (r: Vec<String>)
    ensures
        names_sorted(names_view(r@)),
        r@.len() == kept_count(source_files(names_view(names@)).len(), limit as nat),
        exists|s: Seq<Seq<char>>|
            #![trigger s.to_multiset()]
            s.to_multiset() == source_files(names_view(names@)).to_multiset() && names_sorted(s)
                && names_view(r@) == s.take(r@.len() as int),
{
    broadcast use vstd::seq_lib::group_to_multiset_ensures;

    let ghost all = names_view(names@);
    let mut sorted: Vec<String> = Vec::new();
    let mut i: usize = 0;
    while i < names.len()
        invariant
            i <= names@.len(),
            all == names_view(names@),
            names_sorted(names_view(sorted@)),
            names_view(sorted@).to_multiset() == source_files(all.take(i as int)).to_multiset(),
        decreases names.len() - i,
    {
        let ghost prev = names_view(sorted@);
        assert(all.take(i + 1) =~= all.take(i as int).push(all[i as int]));
        proof {
            lemma_source_files_push(all.take(i as int), all[i as int]);
        }
        if is_source_file_name(names[i].as_str()) {
            let name = names[i].clone();
            assert(name@ == all[i as int]);
            let p = insertion_point(&sorted, name.as_str());
            let ghost x = name@;
            sorted.insert(p, name);
            assert(names_view(sorted@) =~= prev.insert(p as int, x));
            proof {
                vstd::seq_lib::to_multiset_insert(prev, p as int, x);
                vstd::seq_lib::to_multiset_build(source_files(all.take(i as int)), x);
            }
            assert(source_files(all.take(i + 1)) == source_files(all.take(i as int)).push(x));
            assert forall|a: int, b: int| 0 <= a < b < names_view(sorted@).len() implies seq_le(
                #[trigger] names_view(sorted@)[a],
                #[trigger] names_view(sorted@)[b],
            ) by {
                let s = names_view(sorted@);
                if b < p {
                    assert(s[a] == prev[a] && s[b] == prev[b]);
                } else if b == p {
                    assert(s[a] == prev[a]);
                } else if a < p {
                    assert(s[a] == prev[a] && s[b] == prev[b - 1]);
                    assert(seq_le(prev[a], x));
                    lemma_seq_le_total(prev[p as int], x);
                    assert(seq_le(x, prev[p as int]));
                    if b - 1 > p {
                        assert(seq_le(prev[p as int], prev[b - 1]));
                        lemma_seq_le_trans(x, prev[p as int], prev[b - 1]);
                    }
                    lemma_seq_le_trans(prev[a], x, prev[b - 1]);
                } else if a == p {
                    assert(s[b] == prev[b - 1]);
                    lemma_seq_le_total(prev[p as int], x);
                    if b - 1 > p {
                        assert(seq_le(prev[p as int], prev[b - 1]));
                        lemma_seq_le_trans(x, prev[p as int], prev[b - 1]);
                    }
                } else {
                    assert(s[a] == prev[a - 1] && s[b] == prev[b - 1]);
                }
            }
        } else {
            assert(source_files(all.take(i + 1)) == source_files(all.take(i as int)));
        }
        i = i + 1;
    }
    assert(all.take(i as int) =~= all);
    let ghost full = names_view(sorted@);
    if limit > 0 && sorted.len() > limit {
        sorted.truncate(limit);
    }
    proof {
        to_multiset_len_of(full);
        to_multiset_len_of(source_files(all));
        assert(names_view(sorted@) =~= full.take(sorted@.len() as int));
        assert(names_sorted(names_view(sorted@)));
    }
    sorted
}

/// Filtering a sequence with one more name at its end keeps that name at
/// the end exactly when it is a source file.
proof fn lemma_source_files_push(s: Seq<Seq<char>>, x: Seq<char>)
    ensures
        source_files(s.push(x)) == if is_source_file(x) {
            source_files(s).push(x)
        } else {
            source_files(s)
        },
{
    reveal(Seq::filter);
    assert(s.push(x).drop_last() =~= s);
}

/// Equal multisets come from sequences of equal length.
proof fn to_multiset_len_of(s: Seq<Seq<char>>)
    ensures
        s.to_multiset().len() == s.len(),
{
    vstd::seq_lib::to_multiset_len(s);
}

/// Whether a lower-cased extension marks an image that the analysis tools
/// read: "png", "jpg" or "jpeg".
pub open spec fn is_analysis_image_ext(lower: Seq<char>) -> bool {
    lower == "png"@ || lower == "jpg"@ || lower == "jpeg"@
}

/// Whether a file extension, compared lower-cased, marks a PNG or JPEG
/// image.
pub fn is_analysis_image_extension(ext: &str) -> (r: bool)
    ensures
        r == is_analysis_image_ext(spec_to_lowercase(ext@)),
{
    let lower = str_to_lowercase(ext);
    is_analysis_image_ext_lower(lower.as_str())
}

/// Whether an already lower-cased extension is "png", "jpg" or "jpeg".
pub fn is_analysis_image_ext_lower(lower: &str) -> (r: bool)
    ensures
        r == is_analysis_image_ext(lower@),
{
    str_eq(lower, "png") || str_eq(lower, "jpg") || str_eq(lower, "jpeg")
}

/// Whether a file extension, compared lower-cased, is "png".
pub fn is_png_extension(ext: &str) -> (r: bool)
    ensures
        r == (spec_to_lowercase(ext@) == "png"@),
{
    let lower = str_to_lowercase(ext);
    str_eq(lower.as_str(), "png")
}

} // verus!
