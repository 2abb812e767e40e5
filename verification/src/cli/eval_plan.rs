//! The plan of a codec evaluation: which format is evaluated under which
//! baseline key, in which order images and qualities are encoded, and in
//! which order the per-quality rows are reported.
use vstd::prelude::*;
use crate::text::str_eq;

verus! {

/// The formats that a codec evaluation knows.
#[derive(Clone, Copy, Debug, PartialEq, Eq, Structural)]
pub enum EvalFormat {
    Jpeg,
    Avif,
}

/// A format name that codec evaluation does not know.
#[derive(Clone, Debug)]
pub enum EvalFormatError {
    UnknownFormat(String),
}

impl EvalFormatError {
    /// The message that reports the error.
    pub fn message(&self) -> (r: String)
        ensures
            r@ == match self {
                EvalFormatError::UnknownFormat(f) => "Unknown format: "@ + f@ + ". Supported: jpeg, avif"@,
            },
    {
        match self {
            EvalFormatError::UnknownFormat(f) => {
                let mut s = String::from_str("Unknown format: ");
                s.append(f.as_str());
                s.append(". Supported: jpeg, avif");
                s
            },
        }
    }
}

/// The format and baseline key that evaluating `format` uses: "jpeg" keeps
/// its baseline under "jpeg", "avif" under "avif-" and the preset name.
pub open spec fn spec_eval_target(format: Seq<char>, preset: Seq<char>) -> Option<(EvalFormat, Seq<char>)> {
    if format == "jpeg"@ {
        Some((EvalFormat::Jpeg, "jpeg"@))
    } else if format == "avif"@ {
        Some((EvalFormat::Avif, "avif-"@ + preset))
    } else {
        None
    }
}

/// Resolve the format of an evaluation and the key of its baseline, or
/// report an unknown format by its name.
pub fn eval_target(format: &str, avif_preset: &str) -> (r: Result<(EvalFormat, String), EvalFormatError>)
    ensures
        match r {
            Ok((f, key)) => spec_eval_target(format@, avif_preset@) == Some((f, key@)),
            Err(EvalFormatError::UnknownFormat(name)) => spec_eval_target(format@, avif_preset@) is None
                && name@ == format@,
        },
{
    if str_eq(format, "jpeg") {
        Ok((EvalFormat::Jpeg, String::from_str("jpeg")))
    } else if str_eq(format, "avif") {
        let mut key = String::from_str("avif-");
        key.append(avif_preset);
        Ok((EvalFormat::Avif, key))
    } else {
        Err(EvalFormatError::UnknownFormat(String::from_str(format)))
    }
}

/// The (image, quality) pairs of an evaluation over the first `n` images:
/// image by image, each at every quality in the given order.
pub open spec fn spec_eval_plan(n: nat, qualities: Seq<u8>) -> Seq<(usize, u8)>
    decreases n,
{
    if n == 0 {
        Seq::empty()
    } else {
        spec_eval_plan((n - 1) as nat, qualities) + qualities.map_values(|q: u8| (((n - 1) as usize), q))
    }
}

/// The order in which an evaluation encodes: every quality of image 0, then
/// every quality of image 1, and so on.
pub fn eval_plan(n_images: usize, qualities: &Vec<u8>) -> (r: Vec<(usize, u8)>)
    ensures
        r@ == spec_eval_plan(n_images as nat, qualities@),
{
    let mut out: Vec<(usize, u8)> = Vec::new();
    let mut i: usize = 0;
    while i < n_images
        invariant
            i <= n_images,
            out@ == spec_eval_plan(i as nat, qualities@),
        decreases n_images - i,
    {
        let ghost before = out@;
        let mut j: usize = 0;
        while j < qualities.len()
            invariant
                j <= qualities.len(),
                out@ == before + qualities@.subrange(0, j as int).map_values(|q: u8| (i, q)),
            decreases qualities.len() - j,
        {
            out.push((i, qualities[j]));
            assert(qualities@.subrange(0, j + 1).map_values(|q: u8| (i, q)) =~= qualities@.subrange(
                0,
                j as int,
            ).map_values(|q: u8| (i, q)).push((i, qualities@[j as int])));
            j = j + 1;
        }
        assert(qualities@.subrange(0, j as int) =~= qualities@);
        assert(spec_eval_plan((i + 1) as nat, qualities@) =~= before + qualities@.map_values(|q: u8| (i, q)));
        i = i + 1;
    }
    out
}

/// An evaluation of `n` images encodes `n` times as often as there are
/// qualities, and its `k`-th encode is of image `k / |qualities|` at
/// quality `k % |qualities|`.
pub proof fn lemma_eval_plan_shape(n: nat, qualities: Seq<u8>)
    ensures
        spec_eval_plan(n, qualities).len() == n * qualities.len(),
        forall|k: int| 0 <= k < n * qualities.len() ==> #[trigger] spec_eval_plan(n, qualities)[k] == (
            (k / qualities.len() as int) as usize,
            qualities[k % qualities.len() as int],
        ),
    decreases n,
{
    if n == 0 {
        assert(n * qualities.len() == 0);
    } else {
        let m = qualities.len() as int;
        lemma_eval_plan_shape((n - 1) as nat, qualities);
        assert((n - 1) * m + m == n * m) by (nonlinear_arith);
        let prev = spec_eval_plan((n - 1) as nat, qualities);
        let tail = qualities.map_values(|q: u8| (((n - 1) as usize), q));
        assert(spec_eval_plan(n, qualities) == prev + tail);
        assert(prev.len() == (n - 1) * m);
        assert(tail.len() == m);
        assert forall|k: int| 0 <= k < n * m implies #[trigger] spec_eval_plan(n, qualities)[k] == (
            (k / m) as usize,
            qualities[k % m],
        ) by {
            if k < (n - 1) * m {
                assert(spec_eval_plan(n, qualities)[k] == prev[k]);
            } else {
                assert(spec_eval_plan(n, qualities)[k] == tail[k - (n - 1) * m]);
                let j = k - (n - 1) * m;
                assert(0 <= j < m);
                assert(k == (n - 1) * m + j);
                assert(k / m == n - 1 && k % m == j) by (nonlinear_arith)
                    requires
                        k == (n - 1) * m + j,
                        0 <= j < m,
                        n >= 1;
            }
        }
    }
}

/// Whether `q` occurs in `v`.
fn contains_u8(v: &Vec<u8>, q: u8) -> (r: bool)
    ensures
        r == v@.contains(q),
{
    let mut i: usize = 0;
    while i < v.len()
        invariant
            i <= v.len(),
            forall|k: int| 0 <= k < i ==> v@[k] != q,
        decreases v.len() - i,
    {
        if v[i] == q {
            return true;
        }
        i = i + 1;
    }
    false
}

/// The qualities that occur in `qualities`, each once, in increasing order:
/// the rows of a per-quality report.
pub fn distinct_qualities(qualities: &Vec<u8>) -> (r: Vec<u8>)
    ensures
        forall|i: int, j: int| 0 <= i < j < r@.len() ==> r@[i] < r@[j],
        forall|q: u8| r@.contains(q) <==> qualities@.contains(q),
{
    let mut out: Vec<u8> = Vec::new();
    let mut v: u16 = 0;
    while v < 256
        invariant
            v <= 256,
            forall|i: int, j: int| 0 <= i < j < out@.len() ==> out@[i] < out@[j],
            forall|k: int| 0 <= k < out@.len() ==> out@[k] < v,
            forall|q: u8| q < v ==> (out@.contains(q) <==> qualities@.contains(q)),
            forall|q: u8| q >= v ==> !out@.contains(q),
        decreases 256 - v,
    {
        let q = v as u8;
        if contains_u8(qualities, q) {
            let ghost prev = out@;
            out.push(q);
            assert forall|x: u8| out@.contains(x) <==> (prev.contains(x) || x == q) by {
                if out@.contains(x) {
                    let k = choose|k: int| 0 <= k < out@.len() && out@[k] == x;
                    if k < prev.len() {
                        assert(prev[k] == x);
                    }
                }
                if x == q {
                    assert(out@[prev.len() as int] == q);
                }
                if prev.contains(x) {
                    let k = choose|k: int| 0 <= k < prev.len() && prev[k] == x;
                    assert(out@[k] == x);
                }
            }
        }
        v = v + 1;
    }
    out
}

} // verus!
