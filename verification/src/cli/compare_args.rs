//! Arguments of the comparison tool: format lists and file sizes.
use vstd::prelude::*;
use crate::registry::FormatSelection;
use crate::text::{split, split_str, str_views, trim, trim_str};
use crate::cli::sparse::strings_view;

verus! {

/// Unicode lower-casing of a string, as `str::to_lowercase` performs it.
pub uninterp spec fn spec_to_lowercase(s: Seq<char>) -> Seq<char>;

/// Calls `str::to_lowercase`; the result is the Unicode lower-case mapping
/// of the input, which the contract names without spelling out.
#[verifier::external_body]
pub(crate) fn str_to_lowercase(s: &str) -> (r: String)
    ensures
        r@ == spec_to_lowercase(s@),
{
    s.to_lowercase()
}

/// A word of a format list, as compared: trimmed, then lower-cased.
pub open spec fn format_word(piece: Seq<char>) -> Seq<char> {
    spec_to_lowercase(trim(piece))
}

/// The words that name a format.
pub open spec fn is_format_name(w: Seq<char>) -> bool {
    w == "jpeg"@ || w == "jpg"@ || w == "webp"@ || w == "avif"@
}

/// A format list that does not parse.
#[derive(Debug)]
pub enum FormatListError {
    /// The first word that names no format (trimmed and lower-cased).
    UnknownFormat(String),
}

impl FormatListError {
    /// The message that reports the error.
    pub fn message(&self) -> (r: String)
        ensures
            r@ == match self {
                FormatListError::UnknownFormat(w) => "Unknown format: "@ + w@ + ". Use: jpeg, webp, avif"@,
            },
    {
        match self {
            FormatListError::UnknownFormat(w) => {
                let mut s = String::from_str("Unknown format: ");
                s.append(w.as_str());
                s.append(". Use: jpeg, webp, avif");
                s
            },
        }
    }
}

/// What a list of format words selects: JPEG ("jpeg", "jpg"), WebP and
/// AVIF for the words that name them, or the first word that names no
/// format as the error.
pub open spec fn spec_select_formats(words: Seq<Seq<char>>) -> Result<FormatSelection, Seq<char>> {
    if exists|i: int| 0 <= i < words.len() && !is_format_name(#[trigger] words[i]) {
        let i = choose|i: int| 0 <= i < words.len() && !is_format_name(#[trigger] words[i])
            && forall|j: int| 0 <= j < i ==> is_format_name(#[trigger] words[j]);
        Err(words[i])
    } else {
        Ok(FormatSelection {
            jpeg: words.contains("jpeg"@) || words.contains("jpg"@),
            webp: words.contains("webp"@),
            avif: words.contains("avif"@),
            jpegxl: false,
        })
    }
}

/// What `parse_formats` answers for `s`: "all" selects every format;
/// otherwise the comma-separated words, trimmed and lower-cased, select
/// formats as `spec_select_formats` says.
pub open spec fn spec_parse_formats(s: Seq<char>) -> Result<FormatSelection, Seq<char>> {
    if s == "all"@ {
        Ok(FormatSelection { jpeg: true, webp: true, avif: true, jpegxl: true })
    } else {
        spec_select_formats(split(s, ',').map_values(|p: Seq<char>| format_word(p)))
    }
}

proof fn lemma_format_names_distinct()
    ensures
        "jpeg"@ != "jpg"@,
        "jpeg"@ != "webp"@,
        "jpeg"@ != "avif"@,
        "jpg"@ != "webp"@,
        "jpg"@ != "avif"@,
        "webp"@ != "avif"@,
{
    reveal_strlit("jpeg");
    reveal_strlit("jpg");
    reveal_strlit("webp");
    reveal_strlit("avif");
    assert("jpeg"@.len() != "jpg"@.len());
    assert("jpeg"@[0] != "webp"@[0]);
    assert("jpeg"@[0] != "avif"@[0]);
    assert("jpg"@[0] != "webp"@[0]);
    assert("jpg"@[0] != "avif"@[0]);
    assert("webp"@[0] != "avif"@[0]);
}

pub(crate) proof fn lemma_push_contains(prev: Seq<Seq<char>>, w: Seq<char>, x: Seq<char>)
    ensures
        prev.push(w).contains(x) == (prev.contains(x) || x == w),
{
    let q = prev.push(w);
    if q.contains(x) {
        let k = choose|k: int| 0 <= k < q.len() && q[k] == x;
        if k < prev.len() {
            assert(prev[k] == x);
        }
    }
    if prev.contains(x) {
        let k = choose|k: int| 0 <= k < prev.len() && prev[k] == x;
        assert(q[k] == x);
    }
    if x == w {
        assert(q[prev.len() as int] == x);
    }
}

/// A list of format words selects exactly the formats its words name:
/// JPEG when some word is "jpeg" or "jpg", WebP when some word is "webp",
/// AVIF when some word is "avif", and never JPEG XL; a word names no other
/// format than its own. A word that is none of these makes the list an
/// error naming the first such word.
pub proof fn lemma_words_select_their_formats(words: Seq<Seq<char>>)
    ensures
        (forall|i: int| 0 <= i < words.len() ==> {
            ||| words[i] == "jpeg"@
            ||| words[i] == "jpg"@
            ||| words[i] == "webp"@
            ||| words[i] == "avif"@
        }) ==> spec_select_formats(words) == Ok::<FormatSelection, Seq<char>>(
            FormatSelection {
                jpeg: exists|i: int| 0 <= i < words.len() && (words[i] == "jpeg"@ || words[i] == "jpg"@),
                webp: exists|i: int| 0 <= i < words.len() && words[i] == "webp"@,
                avif: exists|i: int| 0 <= i < words.len() && words[i] == "avif"@,
                jpegxl: false,
            },
        ),
        forall|k: int|
            0 <= k < words.len() && words[k] != "jpeg"@ && words[k] != "jpg"@ && words[k] != "webp"@ && words[k]
                != "avif"@ && (forall|j: int|
                0 <= j < k ==> (words[j] == "jpeg"@ || words[j] == "jpg"@ || words[j] == "webp"@ || words[j]
                    == "avif"@)) ==> spec_select_formats(words) == Err::<FormatSelection, Seq<char>>(words[k]),
{
    let all_named = forall|i: int| 0 <= i < words.len() ==> is_format_name(#[trigger] words[i]);
    if all_named {
        let jpeg = exists|i: int| 0 <= i < words.len() && (words[i] == "jpeg"@ || words[i] == "jpg"@);
        assert(jpeg == (words.contains("jpeg"@) || words.contains("jpg"@))) by {
            if jpeg {
                let i = choose|i: int| 0 <= i < words.len() && (words[i] == "jpeg"@ || words[i] == "jpg"@);
                assert(words[i] == "jpeg"@ ==> words.contains("jpeg"@));
                assert(words[i] == "jpg"@ ==> words.contains("jpg"@));
            }
            if words.contains("jpeg"@) {
                let i = choose|i: int| 0 <= i < words.len() && words[i] == "jpeg"@;
                assert(0 <= i < words.len() && (words[i] == "jpeg"@ || words[i] == "jpg"@));
            }
            if words.contains("jpg"@) {
                let i = choose|i: int| 0 <= i < words.len() && words[i] == "jpg"@;
                assert(0 <= i < words.len() && (words[i] == "jpeg"@ || words[i] == "jpg"@));
            }
        }
    }
    assert forall|k: int|
        0 <= k < words.len() && words[k] != "jpeg"@ && words[k] != "jpg"@ && words[k] != "webp"@ && words[k]
            != "avif"@ && (forall|j: int|
            0 <= j < k ==> (words[j] == "jpeg"@ || words[j] == "jpg"@ || words[j] == "webp"@ || words[j]
                == "avif"@)) implies spec_select_formats(words) == Err::<FormatSelection, Seq<char>>(words[k]) by {
        assert(!is_format_name(words[k]));
        let c = choose|c: int| 0 <= c < words.len() && !is_format_name(#[trigger] words[c])
            && forall|j: int| 0 <= j < c ==> is_format_name(#[trigger] words[j]);
        assert(0 <= k < words.len() && !is_format_name(words[k]) && forall|j: int|
            0 <= j < k ==> is_format_name(#[trigger] words[j]));
        assert(c == k) by {
            if c < k {
                assert(is_format_name(words[c]));
            } else if c > k {
                assert(is_format_name(words[k]));
            }
        }
    }
}

/// The formats that a list of (trimmed, lower-cased) format words selects,
/// or the first word that names no format.
pub fn select_formats(words: &Vec<String>) -> (r: Result<FormatSelection, FormatListError>)
    ensures
        match (r, spec_select_formats(strings_view(words@))) {
            (Ok(a), Ok(b)) => a == b,
            (Err(FormatListError::UnknownFormat(w)), Err(v)) => w@ == v,
            _ => false,
        },
{
    proof {
        lemma_format_names_distinct();
    }
    let ghost ws = strings_view(words@);
    let mut selection = FormatSelection { jpeg: false, webp: false, avif: false, jpegxl: false };
    let mut i: usize = 0;
    while i < words.len()
        invariant
            ws == strings_view(words@),
            i <= words@.len(),
            forall|j: int| 0 <= j < i ==> is_format_name(#[trigger] ws[j]),
            selection.jpeg == (ws.subrange(0, i as int).contains("jpeg"@) || ws.subrange(0, i as int).contains("jpg"@)),
            selection.webp == ws.subrange(0, i as int).contains("webp"@),
            selection.avif == ws.subrange(0, i as int).contains("avif"@),
            !selection.jpegxl,
        decreases words@.len() - i,
    {
        let w = words[i].as_str();
        assert(w@ == ws[i as int]);
        let ghost prev = ws.subrange(0, i as int);
        assert(ws.subrange(0, i + 1) =~= prev.push(w@));
        proof {
            lemma_format_names_distinct();
        }
        if crate::text::str_eq(w, "jpeg") || crate::text::str_eq(w, "jpg") {
            selection.jpeg = true;
        } else if crate::text::str_eq(w, "webp") {
            selection.webp = true;
        } else if crate::text::str_eq(w, "avif") {
            selection.avif = true;
        } else {
            proof {
                assert(!is_format_name(ws[i as int]));
                assert(exists|k: int| 0 <= k < ws.len() && !is_format_name(#[trigger] ws[k])
                    && forall|j: int| 0 <= j < k ==> is_format_name(#[trigger] ws[j]));
                let k = choose|k: int| 0 <= k < ws.len() && !is_format_name(#[trigger] ws[k])
                    && forall|j: int| 0 <= j < k ==> is_format_name(#[trigger] ws[j]);
                assert(k == i) by {
                    if k < i {
                        assert(is_format_name(ws[k]));
                    } else if k > i {
                        assert(is_format_name(ws[i as int]));
                    }
                }
            }
            return Err(FormatListError::UnknownFormat(String::from_str(w)));
        }
        proof {
            lemma_push_contains(prev, w@, "jpeg"@);
            lemma_push_contains(prev, w@, "jpg"@);
            lemma_push_contains(prev, w@, "webp"@);
            lemma_push_contains(prev, w@, "avif"@);
        }
        i = i + 1;
    }
    assert(ws.subrange(0, i as int) =~= ws);
    Ok(selection)
}

/// Parse a comma-separated format list ("jpeg,webp,avif", or "all").
pub fn parse_formats(s: &str) -> (r: Result<FormatSelection, FormatListError>)
    ensures
        match (r, spec_parse_formats(s@)) {
            (Ok(a), Ok(b)) => a == b,
            (Err(FormatListError::UnknownFormat(w)), Err(v)) => w@ == v,
            _ => false,
        },
{
    if crate::text::str_eq(s, "all") {
        return Ok(FormatSelection::all());
    }
    let pieces = split_str(s, ',');
    let ghost target = split(s@, ',').map_values(|p: Seq<char>| format_word(p));
    let mut words: Vec<String> = Vec::new();
    let mut i: usize = 0;
    while i < pieces.len()
        invariant
            str_views(pieces@) == split(s@, ','),
            target == split(s@, ',').map_values(|p: Seq<char>| format_word(p)),
            i <= pieces@.len(),
            strings_view(words@) == target.subrange(0, i as int),
        decreases pieces@.len() - i,
    {
        let w = str_to_lowercase(trim_str(pieces[i]));
        proof {
            assert(str_views(pieces@)[i as int] == pieces@[i as int]@);
            assert(w@ == target[i as int]);
        }
        let ghost before = words@;
        words.push(w);
        assert(strings_view(words@) =~= strings_view(before).push(target[i as int]));
        assert(target.subrange(0, i + 1) =~= target.subrange(0, i as int).push(target[i as int]));
        i = i + 1;
    }
    assert(target.subrange(0, i as int) =~= target);
    select_formats(&words)
}


/// Splits `n` as `q * p + r` with `p` a power of two, `r < p`, and `q` the
/// top 53 bits of `n` (`p == 1` when `n` fits in 53 bits): the parts that
/// rounding `n` to a 64-bit float works on.
pub open spec fn float_parts(n: nat) -> (nat, nat, nat)
    decreases n,
{
    if n < 0x20_0000_0000_0000 {
        (n, 0, 1)
    } else {
        let (q, r, p) = float_parts(n / 2);
        (q, 2 * r + n % 2, 2 * p)
    }
}

/// The value of `n as f64`: `n` rounded to 53 significant bits, to the
/// nearest such value, ties to an even significand.
pub open spec fn f64_nearest(n: nat) -> nat {
    let (q, r, p) = float_parts(n);
    if 2 * r > p || (2 * r == p && q % 2 == 1) { (q + 1) * p } else { q * p }
}

/// `x / d` rounded to one decimal and counted in tenths, ties to an even
/// last digit (as `{:.1}` formats an exactly representable value).
pub open spec fn tenths_nearest(x: nat, d: nat) -> nat {
    let t = (x * 10) / d;
    let rem = (x * 10) % d;
    if 2 * rem > d || (2 * rem == d && t % 2 == 1) { t + 1 } else { t }
}

/// A count of tenths written with one decimal, e.g. 12 as "1.2".
pub open spec fn one_decimal(t: nat) -> Seq<char> {
    crate::text::decimal(t / 10) + "."@ + seq![crate::text::digit_char(t % 10)]
}

/// How a byte count is shown: bytes below 1 KiB, else KiB or MiB with one
/// decimal.
pub open spec fn spec_format_size(bytes: nat) -> Seq<char> {
    if bytes < 1024 {
        crate::text::decimal(bytes) + " B"@
    } else if bytes < 1024 * 1024 {
        one_decimal(tenths_nearest(bytes, 1024)) + " KB"@
    } else {
        one_decimal(tenths_nearest(f64_nearest(bytes), 1024 * 1024)) + " MB"@
    }
}

proof fn lemma_float_parts(n: nat)
    ensures
        float_parts(n).2 >= 1,
        float_parts(n).1 < float_parts(n).2,
        n == float_parts(n).0 * float_parts(n).2 + float_parts(n).1,
        float_parts(n).0 < 0x20_0000_0000_0000,
        n < 0x20_0000_0000_0000 ==> float_parts(n).2 == 1,
        n >= 0x20_0000_0000_0000 ==> float_parts(n).0 >= 0x10_0000_0000_0000,
    decreases n,
{
    if n >= 0x20_0000_0000_0000 {
        lemma_float_parts(n / 2);
        let (q, r, p) = float_parts(n / 2);
        assert(n == q * (2 * p) + (2 * r + n % 2)) by (nonlinear_arith)
            requires
                n / 2 == q * p + r,
                n == 2 * (n / 2) + n % 2,
        ;
        assert(2 * r + n % 2 < 2 * p);
        if n / 2 < 0x20_0000_0000_0000 {
            assert(p == 1);
            assert(q == n / 2);
        }
    }
}

/// The value of `n as f64`, as an integer.
fn f64_nearest_exec(n: u64) -> (x: u128)
    ensures
        x == f64_nearest(n as nat),
        x <= 0x1_0000_0000_0000_1000,
{
    let mut m: u64 = n;
    let mut r: u128 = 0;
    let mut p: u128 = 1;
    proof {
        lemma_float_parts(n as nat);
    }
    while m >= 0x20_0000_0000_0000
        invariant
            float_parts(n as nat).0 == float_parts(m as nat).0,
            float_parts(n as nat).1 == float_parts(m as nat).1 * p + r,
            float_parts(n as nat).2 == float_parts(m as nat).2 * p,
            n == m * p + r,
            r < p,
            1 <= p <= 0x1_0000_0000_0000_0000,
            m * p <= n,
        decreases m,
    {
        let b = m % 2;
        proof {
            let (q2, r2, p2) = float_parts((m / 2) as nat);
            assert(float_parts(m as nat) == (q2, (2 * r2 + m % 2) as nat, 2 * p2));
            assert(float_parts(m as nat).1 * p + r == r2 * (2 * p) + (b * p + r)) by (nonlinear_arith)
                requires
                    float_parts(m as nat).1 == 2 * r2 + m % 2,
                    b == m % 2,
            ;
            assert(float_parts(m as nat).2 * p == p2 * (2 * p)) by (nonlinear_arith)
                requires
                    float_parts(m as nat).2 == 2 * p2,
            ;
            assert(n == (m / 2) * (2 * p) + (b * p + r)) by (nonlinear_arith)
                requires
                    n == m * p + r,
                    m == 2 * (m / 2) + b,
            ;
            assert(b * p + r < 2 * p) by (nonlinear_arith)
                requires
                    b <= 1,
                    r < p,
            ;
            assert(m >= 2);
            assert(p * 2 <= m * p) by (nonlinear_arith)
                requires
                    m >= 2,
                    p >= 1,
            ;
            assert((m / 2) * (2 * p) <= n) by (nonlinear_arith)
                requires
                    n == (m / 2) * (2 * p) + (b * p + r),
            ;
        }
        r = (b as u128) * p + r;
        p = 2 * p;
        m = m / 2;
    }
    proof {
        lemma_float_parts(m as nat);
        assert(float_parts(m as nat) == (m as nat, 0nat, 1nat));
    }
    let q = m as u128;
    let up = 2 * r > p || (2 * r == p && q % 2 == 1);
    proof {
        assert(q * p <= n);
        if n >= 0x20_0000_0000_0000 {
            assert(q >= 0x10_0000_0000_0000);
            assert(p < 0x1000) by (nonlinear_arith)
                requires
                    q >= 0x10_0000_0000_0000,
                    q * p <= n,
                    n < 0x1_0000_0000_0000_0000,
            ;
        } else {
            assert(p == 1);
        }
        assert((q + 1) * p == q * p + p) by (nonlinear_arith);
    }
    if up { (q + 1) * p } else { q * p }
}


fn tenths_nearest_exec(x: u128, d: u128) -> (t: u64)
    requires
        x <= 0x1_0000_0000_0000_1000,
        1024 <= d <= 0x10_0000,
    ensures
        t == tenths_nearest(x as nat, d as nat),
{
    let t = (x * 10) / d;
    let rem = (x * 10) % d;
    assert(t <= (x as int) * 10 / 1024) by (nonlinear_arith)
        requires
            d >= 1024,
            t == (x as int * 10) / (d as int),
    ;
    assert((x as int) * 10 / 1024 < 0x1000_0000_0000_0000) by (nonlinear_arith)
        requires
            x <= 0x1_0000_0000_0000_1000,
    ;
    if 2 * rem > d || (2 * rem == d && t % 2 == 1) {
        (t + 1) as u64
    } else {
        t as u64
    }
}

fn push_one_decimal(s: &mut String, t: u64)
    ensures
        final(s)@ == old(s)@ + one_decimal(t as nat),
{
    crate::text::push_decimal(s, (t / 10) as u128);
    s.append(".");
    crate::text::push_decimal(s, (t % 10) as u128);
    proof {
        reveal_strlit(".");
        assert(crate::text::decimal((t % 10) as nat) == seq![crate::text::digit_char((t % 10) as nat)]);
        assert(final(s)@ =~= old(s)@ + one_decimal(t as nat)) by {
            assert(final(s)@ == old(s)@ + crate::text::decimal((t / 10) as nat) + "."@
                + seq![crate::text::digit_char((t % 10) as nat)]);
        }
    }
}

/// Format a byte count for display: "512 B", "1.5 KB", "2.3 MB" (one
/// decimal, as `{:.1}` prints the float quotient).
pub fn format_size(bytes: usize) -> (r: String)
    ensures
        r@ == spec_format_size(bytes as nat),
{
    let mut s = String::new();
    if bytes < 1024 {
        crate::text::push_decimal(&mut s, bytes as u128);
        s.append(" B");
    } else if bytes < 1024 * 1024 {
        let t = tenths_nearest_exec(bytes as u128, 1024);
        push_one_decimal(&mut s, t);
        s.append(" KB");
    } else {
        let x = f64_nearest_exec(bytes as u64);
        let t = tenths_nearest_exec(x, 1024 * 1024);
        push_one_decimal(&mut s, t);
        s.append(" MB");
    }
    assert(s@ =~= spec_format_size(bytes as nat));
    s
}

/// How many of the `found` corpus images a comparison run processes: all of
/// them, or the first `limit` when a smaller limit is given.
pub fn corpus_image_count(limit: Option<usize>, found: usize) -> (r: usize)
    ensures
        r == match limit {
            Some(l) => if l < found { l } else { found },
            None => found,
        },
{
    match limit {
        Some(l) => if l < found { l } else { found },
        None => found,
    }
}

} // verus!
