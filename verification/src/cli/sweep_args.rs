//! Arguments and progress text of the quality-sweep tools: elapsed-time
//! display, quality ranges and their textual form "start:step:end".
use vstd::prelude::*;
use crate::text::{decimal, push_decimal, split, split_str, str_views, trim, trim_str};

verus! {

/// How an elapsed time in whole seconds is shown: "42s", "3m 5s" or "2h 7m".
pub open spec fn spec_format_duration(secs: nat) -> Seq<char> {
    if secs < 60 {
        decimal(secs) + "s"@
    } else if secs < 3600 {
        decimal(secs / 60) + "m "@ + decimal(secs % 60) + "s"@
    } else {
        decimal(secs / 3600) + "h "@ + decimal((secs % 3600) / 60) + "m"@
    }
}

/// Format an elapsed time given in whole seconds.
pub fn format_duration(secs: u64) -> (r: String)
    ensures
        r@ == spec_format_duration(secs as nat),
{
    let mut s = String::new();
    if secs < 60 {
        push_decimal(&mut s, secs as u128);
        s.append("s");
    } else if secs < 3600 {
        push_decimal(&mut s, (secs / 60) as u128);
        s.append("m ");
        push_decimal(&mut s, (secs % 60) as u128);
        s.append("s");
    } else {
        push_decimal(&mut s, (secs / 3600) as u128);
        s.append("h ");
        push_decimal(&mut s, ((secs % 3600) / 60) as u128);
        s.append("m");
    }
    assert(s@ =~= spec_format_duration(secs as nat));
    s
}

/// The qualities `start`, `start + step`, ... up to `end` (inclusive), as
/// `(start..=end).step_by(step)` yields them.
pub open spec fn spec_quality_steps(start: u8, end: u8, step: u8) -> Seq<u8> {
    if start > end {
        Seq::empty()
    } else {
        Seq::new(((end - start) / (step as int) + 1) as nat, |i: int| (start + i * step) as u8)
    }
}

/// Every `step`-th quality from `start` to `end` inclusive.
pub fn quality_steps(start: u8, end: u8, step: u8) -> (r: Vec<u8>)
    requires
        step > 0,
    ensures
        r@ == spec_quality_steps(start, end, step),
{
    let mut out: Vec<u8> = Vec::new();
    if start > end {
        assert(out@ =~= spec_quality_steps(start, end, step));
        return out;
    }
    let ghost count = (end - start) / (step as int) + 1;
    let mut q: u8 = start;
    let mut i: usize = 0;
    loop
        invariant_except_break
            i < count,
            q == start + i * step,
            q <= end,
        invariant
            start <= end,
            step > 0,
            count == (end - start) / (step as int) + 1,
            out@.len() == i,
            forall|j: int| 0 <= j < i ==> #[trigger] out@[j] == (start + j * step) as u8,
        ensures
            out@ =~= spec_quality_steps(start, end, step),
        decreases count - i,
    {
        out.push(q);
        proof {
            assert((i + 1) * step == i * step + step) by (nonlinear_arith);
            assert(i + 1 <= count) by (nonlinear_arith)
                requires
                    start + i * step <= end,
                    count == (end - start) / (step as int) + 1,
                    step > 0,
            ;
        }
        if end - q < step {
            proof {
                assert(i + 1 == count) by (nonlinear_arith)
                    requires
                        end - (start + i * step) < step,
                        start + i * step <= end,
                        count == (end - start) / (step as int) + 1,
                        step > 0,
                ;
            }
            i = i + 1;
            break;
        }
        proof {
            assert(i + 1 < count) by (nonlinear_arith)
                requires
                    end - (start + i * step) >= step,
                    count == (end - start) / (step as int) + 1,
                    step > 0,
                    i >= 0,
            ;
        }
        q = q + step;
        i = i + 1;
    }
    out
}

/// The decimal value of a string of digits.
pub open spec fn digits_value(s: Seq<char>) -> nat
    decreases s.len(),
{
    if s.len() == 0 {
        0
    } else {
        digits_value(s.drop_last()) * 10 + ((s.last() as u32) - ('0' as u32)) as nat
    }
}

/// All characters of `s` are ASCII digits.
pub open spec fn all_digits(s: Seq<char>) -> bool {
    forall|i: int| 0 <= i < s.len() ==> '0' <= #[trigger] s[i] <= '9'
}

/// What `str::parse::<u8>` gives: an optional '+', then one or more ASCII
/// digits whose value is at most 255; anything else is an error.
pub open spec fn spec_parse_u8(s: Seq<char>) -> Option<u8> {
    let digits = if s.len() > 0 && s[0] == '+' { s.drop_first() } else { s };
    if digits.len() > 0 && all_digits(digits) && digits_value(digits) <= 255 {
        Some(digits_value(digits) as u8)
    } else {
        None
    }
}

proof fn lemma_digits_value_grows(s: Seq<char>, c: char)
    requires
        '0' <= c <= '9',
    ensures
        digits_value(s.push(c)) == digits_value(s) * 10 + ((c as u32) - ('0' as u32)),
        digits_value(s.push(c)) >= digits_value(s),
{
    assert(s.push(c).drop_last() =~= s);
}

proof fn lemma_digits_value_prefix(s: Seq<char>, i: int)
    requires
        0 <= i <= s.len(),
        all_digits(s),
    ensures
        digits_value(s.subrange(0, i)) <= digits_value(s),
    decreases s.len() - i,
{
    if i < s.len() {
        lemma_digits_value_prefix(s, i + 1);
        assert(s.subrange(0, i + 1) =~= s.subrange(0, i).push(s[i]));
        lemma_digits_value_grows(s.subrange(0, i), s[i]);
    } else {
        assert(s.subrange(0, i) =~= s);
    }
}

/// Parse a quality as `str::parse::<u8>` does.
pub fn parse_u8(s: &str) -> (r: Option<u8>)
    ensures
        r == spec_parse_u8(s@),
{
    let n = s.unicode_len();
    let mut start: usize = 0;
    if n > 0 && s.get_char(0) == '+' {
        start = 1;
    }
    let ghost digits = if s@.len() > 0 && s@[0] == '+' { s@.drop_first() } else { s@ };
    assert(digits =~= s@.subrange(start as int, n as int));
    if start == n {
        return None;
    }
    let mut value: u32 = 0;
    let mut i: usize = start;
    while i < n
        invariant
            n == s@.len(),
            start < n,
            start <= i <= n,
            digits == s@.subrange(start as int, n as int),
            digits == (if s@.len() > 0 && s@[0] == '+' { s@.drop_first() } else { s@ }),
            all_digits(s@.subrange(start as int, i as int)),
            value == digits_value(s@.subrange(start as int, i as int)),
            value <= 255,
        decreases n - i,
    {
        let c = s.get_char(i);
        if c < '0' || c > '9' {
            proof {
                assert(digits[i - start] == c);
                assert(!('0' <= digits[i - start] <= '9'));
            }
            return None;
        }
        let ghost prev = s@.subrange(start as int, i as int);
        assert(s@.subrange(start as int, i + 1) =~= prev.push(c));
        proof {
            lemma_digits_value_grows(prev, c);
        }
        value = value * 10 + ((c as u32) - ('0' as u32));
        if value > 255 {
            proof {
                if all_digits(digits) {
                    assert(digits.subrange(0, i + 1 - start) =~= s@.subrange(start as int, i + 1));
                    lemma_digits_value_prefix(digits, i + 1 - start);
                }
            }
            return None;
        }
        i = i + 1;
    }
    assert(s@.subrange(start as int, i as int) =~= digits);
    Some(value as u8)
}

/// The default calibration qualities.
pub open spec fn spec_default_range() -> Seq<u8> {
    seq![10u8, 20, 30, 40, 50, 60, 70, 75, 80, 85, 90, 95]
}

/// The parts of a range argument "start:step:end", each parsed as a
/// quality with its default (10, 2 and 98) where it does not parse.
pub open spec fn range_parts(s: Seq<char>) -> (u8, u8, u8) {
    let parts = split(s, ':');
    (
        match spec_parse_u8(parts[0]) { Some(v) => v, None => 10u8 },
        match spec_parse_u8(parts[1]) { Some(v) => v, None => 2u8 },
        match spec_parse_u8(parts[2]) { Some(v) => v, None => 98u8 },
    )
}

/// The qualities that a range argument names: with three ':'-separated
/// parts, every step-th quality from start to end; otherwise the default
/// calibration qualities.
pub open spec fn spec_parse_range(s: Seq<char>) -> Seq<u8> {
    if split(s, ':').len() == 3 {
        let (start, step, end) = range_parts(s);
        spec_quality_steps(start, end, step)
    } else {
        spec_default_range()
    }
}

fn parse_u8_or(s: &str, default: u8) -> (r: u8)
    ensures
        r == match spec_parse_u8(s@) { Some(v) => v, None => default },
{
    match parse_u8(s) {
        Some(v) => v,
        None => default,
    }
}

/// Whether a range argument has the "start:step:end" shape with a step of
/// 0, the one input that `parse_range` does not take.
pub fn range_step_is_zero(s: &str) -> (r: bool)
    ensures
        r == (split(s@, ':').len() == 3 && range_parts(s@).1 == 0),
{
    let parts = split_str(s, ':');
    assert(str_views(parts@).len() == parts@.len());
    if parts.len() == 3 {
        proof {
            assert(str_views(parts@)[1] == parts@[1]@);
        }
        parse_u8_or(parts[1], 2) == 0
    } else {
        false
    }
}

/// Parse a quality range "start:step:end"; any other shape gives the
/// default calibration qualities. A step of 0 is rejected by `requires`,
/// where `step_by` would panic.
pub fn parse_range(s: &str) -> (r: Vec<u8>)
    requires
        split(s@, ':').len() == 3 ==> range_parts(s@).1 > 0,
    ensures
        r@ == spec_parse_range(s@),
{
    let parts = split_str(s, ':');
    assert(str_views(parts@).len() == parts@.len());
    if parts.len() == 3 {
        proof {
            assert(str_views(parts@)[0] == parts@[0]@);
            assert(str_views(parts@)[1] == parts@[1]@);
            assert(str_views(parts@)[2] == parts@[2]@);
        }
        let start = parse_u8_or(parts[0], 10);
        let step = parse_u8_or(parts[1], 2);
        let end = parse_u8_or(parts[2], 98);
        quality_steps(start, end, step)
    } else {
        let v: Vec<u8> = vec![10, 20, 30, 40, 50, 60, 70, 75, 80, 85, 90, 95];
        assert(v@ =~= spec_default_range());
        v
    }
}

/// The values among `pieces` that parse as qualities once trimmed, in
/// order; the others are skipped.
pub open spec fn parsed_qualities(pieces: Seq<Seq<char>>) -> Seq<u8>
    decreases pieces.len(),
{
    if pieces.len() == 0 {
        Seq::empty()
    } else {
        let rest = parsed_qualities(pieces.drop_last());
        match spec_parse_u8(trim(pieces.last())) {
            Some(v) => rest.push(v),
            None => rest,
        }
    }
}

/// The qualities of a "start,end,step" argument: every step-th quality from
/// start to end when exactly three comma-separated values parse, else every
/// fifth quality from 25 to 90.
pub open spec fn spec_comparison_qualities(s: Seq<char>) -> Seq<u8> {
    let v = parsed_qualities(split(s, ','));
    if v.len() == 3 {
        spec_quality_steps(v[0], v[1], v[2])
    } else {
        spec_quality_steps(25, 90, 5)
    }
}

/// The values of a comma-separated list that parse as qualities.
pub fn parse_quality_list(s: &str) -> (r: Vec<u8>)
    ensures
        r@ == parsed_qualities(split(s@, ',')),
{
    let pieces = split_str(s, ',');
    let ghost all = split(s@, ',');
    let mut out: Vec<u8> = Vec::new();
    let mut i: usize = 0;
    while i < pieces.len()
        invariant
            str_views(pieces@) == all,
            all == split(s@, ','),
            i <= pieces@.len(),
            out@ == parsed_qualities(all.subrange(0, i as int)),
        decreases pieces@.len() - i,
    {
        assert(all.subrange(0, i + 1).drop_last() =~= all.subrange(0, i as int));
        assert(str_views(pieces@)[i as int] == pieces@[i as int]@);
        match parse_u8(trim_str(pieces[i])) {
            Some(v) => out.push(v),
            None => {},
        }
        i = i + 1;
    }
    assert(all.subrange(0, i as int) =~= all);
    out
}

/// Parse a quality range "start,end,step" (25,90,5 unless exactly three
/// values parse). A step of 0 is rejected by `requires`, where `step_by`
/// would panic.
pub fn comparison_qualities(s: &str) -> (r: Vec<u8>)
    requires
        parsed_qualities(split(s@, ',')).len() == 3 ==> parsed_qualities(split(s@, ','))[2] > 0,
    ensures
        r@ == spec_comparison_qualities(s@),
{
    let v = parse_quality_list(s);
    if v.len() == 3 {
        quality_steps(v[0], v[1], v[2])
    } else {
        quality_steps(25, 90, 5)
    }
}

} // verus!
