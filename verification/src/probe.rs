//! Reading numbers out of text: the frame rate and the number of frames
//! that the metadata probe printed, and the number in the name of a frame's
//! file.
//!
//! Text is taken as bytes. Blanks around the probe's output are dropped. A
//! number is a run of decimal digits.

use vstd::prelude::*;
use crate::state::FrameRate;

verus! {

/// The byte `/`.
pub const SLASH: u8 = 47;

/// The byte `.`.
pub const POINT: u8 = 46;

/// Whether `b` is a blank: a space, a tab, a line feed, a vertical tab, a
/// form feed or a carriage return.
pub open spec fn is_blank(b: u8) -> bool {
    b == 32 || (9 <= b && b <= 13)
}

/// Whether `b` is a decimal digit.
pub open spec fn is_digit(b: u8) -> bool {
    48 <= b && b <= 57
}

/// `s` without the blanks at its head.
pub open spec fn trim_front(s: Seq<u8>) -> Seq<u8>
    decreases s.len(),
{
    if s.len() > 0 && is_blank(s[0]) {
        trim_front(s.drop_first())
    } else {
        s
    }
}

/// `s` without the blanks at its end.
pub open spec fn trim_back(s: Seq<u8>) -> Seq<u8>
    decreases s.len(),
{
    if s.len() > 0 && is_blank(s.last()) {
        trim_back(s.drop_last())
    } else {
        s
    }
}

/// `s` without the blanks around it.
pub open spec fn trimmed(s: Seq<u8>) -> Seq<u8> {
    trim_back(trim_front(s))
}

/// The place of the first `b` in `s`, or the length of `s` where it holds
/// none.
pub open spec fn first_at(s: Seq<u8>, b: u8) -> nat
    decreases s.len(),
{
    if s.len() == 0 || s[0] == b {
        0
    } else {
        1 + first_at(s.drop_first(), b)
    }
}

/// Whether `s` is a number: one digit or more, and nothing else.
pub open spec fn all_digits(s: Seq<u8>) -> bool {
    s.len() >= 1 && forall|i: int| 0 <= i < s.len() ==> is_digit(#[trigger] s[i])
}

/// What the digit `b` counts.
pub open spec fn digit_of(b: u8) -> nat {
    if is_digit(b) {
        (b - 48) as nat
    } else {
        0
    }
}

/// The number that the digits of `s` write.
pub open spec fn digits_value(s: Seq<u8>) -> nat
    decreases s.len(),
{
    if s.len() == 0 {
        0
    } else {
        digits_value(s.drop_last()) * 10 + digit_of(s.last())
    }
}

/// Ten to the power of `k`.
pub open spec fn pow10(k: nat) -> nat
    decreases k,
{
    if k == 0 {
        1
    } else {
        10 * pow10((k - 1) as nat)
    }
}

/// A number grows with each digit that is written after it.
pub proof fn lemma_digits_value_grows(s: Seq<u8>, k: int)
    requires
        0 <= k <= s.len(),
    ensures
        digits_value(s.take(k)) <= digits_value(s),
    decreases s.len(),
{
    if k == s.len() {
        assert(s.take(k) =~= s);
    } else {
        assert(s.drop_last().take(k) =~= s.take(k));
        lemma_digits_value_grows(s.drop_last(), k);
    }
}

/// Powers of ten grow.
pub proof fn lemma_pow10_grows(j: nat, k: nat)
    requires
        j <= k,
    ensures
        1 <= pow10(j) <= pow10(k),
    decreases k,
{
    if k > 0 {
        if j < k {
            lemma_pow10_grows(j, (k - 1) as nat);
        } else {
            lemma_pow10_grows((j - 1) as nat, (k - 1) as nat);
        }
    }
}

fn blank(b: u8) -> (r: bool)
    ensures
        r == is_blank(b),
{
    b == 32 || (9 <= b && b <= 13)
}

/// Where the text of `s` begins and ends, once the blanks around it are
/// left out.
fn trim_bounds(s: &[u8]) -> (r: (usize, usize))
    ensures
        r.0 <= r.1 <= s@.len(),
        s@.subrange(r.0 as int, r.1 as int) == trimmed(s@),
{
    let mut from: usize = 0;
    assert(s@.skip(0) =~= s@);
    while from < s.len() && blank(s[from])
        invariant
            from <= s@.len(),
            trim_front(s@) == trim_front(s@.skip(from as int)),
        decreases s@.len() - from,
    {
        proof {
            assert(s@.skip(from as int).drop_first() =~= s@.skip(from + 1));
        }
        from = from + 1;
    }
    let mut to: usize = s.len();
    assert(s@.subrange(from as int, to as int) =~= s@.skip(from as int));
    while to > from && blank(s[to - 1])
        invariant
            from <= to <= s@.len(),
            trimmed(s@) == trim_back(s@.subrange(from as int, to as int)),
        decreases to,
    {
        proof {
            assert(s@.subrange(from as int, to as int).drop_last() =~= s@.subrange(
                from as int,
                to - 1,
            ));
        }
        to = to - 1;
    }
    (from, to)
}

/// The place of the first `b` in `s` between `from` and `to`, or `to`.
fn find_byte(s: &[u8], from: usize, to: usize, b: u8) -> (at: usize)
    requires
        from <= to <= s@.len(),
    ensures
        from <= at <= to,
        at - from == first_at(s@.subrange(from as int, to as int), b),
{
    let mut at: usize = from;
    while at < to && s[at] != b
        invariant
            from <= at <= to <= s@.len(),
            first_at(s@.subrange(from as int, to as int), b) == (at - from) + first_at(
                s@.subrange(at as int, to as int),
                b,
            ),
        decreases to - at,
    {
        proof {
            assert(s@.subrange(at as int, to as int).drop_first() =~= s@.subrange(
                at + 1,
                to as int,
            ));
        }
        at = at + 1;
    }
    at
}

/// Reads the number that `s` holds between `from` and `to`. There is none
/// where that piece is empty, holds anything but digits, or writes a number
/// that 64 bits cannot hold.
fn parse_digits(s: &[u8], from: usize, to: usize) -> (r: Option<u64>)
    requires
        from <= to <= s@.len(),
    ensures
        r is Some <==> all_digits(s@.subrange(from as int, to as int)) && digits_value(
            s@.subrange(from as int, to as int),
        ) <= u64::MAX,
        r is Some ==> r->0 == digits_value(s@.subrange(from as int, to as int)),
{
    let ghost piece = s@.subrange(from as int, to as int);
    if from == to {
        return None;
    }
    let mut acc: u64 = 0;
    let mut i: usize = from;
    assert(s@.subrange(from as int, from as int) =~= Seq::<u8>::empty());
    while i < to
        invariant
            from <= i <= to <= s@.len(),
            from < to,
            piece == s@.subrange(from as int, to as int),
            forall|j: int| from <= j < i ==> is_digit(#[trigger] s@[j]),
            acc == digits_value(s@.subrange(from as int, i as int)),
        decreases to - i,
    {
        let b = s[i];
        if b < 48 || b > 57 {
            proof {
                assert(piece[i - from] == b);
            }
            return None;
        }
        let d: u64 = (b - 48) as u64;
        proof {
            assert(s@.subrange(from as int, i + 1).drop_last() =~= s@.subrange(
                from as int,
                i as int,
            ));
            assert(piece.take(i + 1 - from) =~= s@.subrange(from as int, i + 1));
            lemma_digits_value_grows(piece, i + 1 - from);
        }
        if acc > (u64::MAX - d) / 10 {
            return None;
        }
        acc = acc * 10 + d;
        i = i + 1;
    }
    proof {
        assert forall|j: int| 0 <= j < piece.len() implies is_digit(#[trigger] piece[j]) by {
            assert(piece[j] == s@[from + j]);
        }
    }
    Some(acc)
}

/// Ten to the power of `k`, where 64 bits hold it.
fn power_of_ten(k: usize) -> (r: Option<u64>)
    ensures
        r is Some <==> pow10(k as nat) <= u64::MAX,
        r is Some ==> r->0 == pow10(k as nat),
{
    let mut power: u64 = 1;
    let mut i: usize = 0;
    while i < k
        invariant
            i <= k,
            power == pow10(i as nat),
        decreases k - i,
    {
        if power > u64::MAX / 10 {
            proof {
                lemma_pow10_grows((i + 1) as nat, k as nat);
            }
            return None;
        }
        power = power * 10;
        i = i + 1;
    }
    Some(power)
}

/// What the probe said about the number of frames.
#[derive(Clone, Copy, Debug, PartialEq, Eq, Structural)]
pub enum CountReading {
    /// The number of frames.
    Count(usize),
    /// The probe does not know the number: it printed `N/A`.
    Unavailable,
    /// Neither a number that fits nor `N/A`.
    Malformed,
}

/// The bytes of `N/A`.
pub open spec fn not_available() -> Seq<u8> {
    seq![78u8, 47u8, 65u8]
}

/// The number that `s` writes, where `s` is a number that 64 bits hold.
pub open spec fn number_of(s: Seq<u8>) -> Option<u64> {
    if all_digits(s) && digits_value(s) <= u64::MAX {
        Some(digits_value(s) as u64)
    } else {
        None
    }
}

/// The piece of `s` before the first `sep`; all of `s` where it holds none.
pub open spec fn field(s: Seq<u8>, sep: u8) -> Seq<u8> {
    s.take(first_at(s, sep) as int)
}

/// The piece of `s` after the first `sep`.
pub open spec fn after_field(s: Seq<u8>, sep: u8) -> Seq<u8>
    recommends
        first_at(s, sep) < s.len(),
{
    s.skip(first_at(s, sep) as int + 1)
}

/// What `output` says about the number of frames.
pub open spec fn frame_count_of(output: Seq<u8>) -> CountReading {
    let text = trimmed(output);
    if text == not_available() {
        CountReading::Unavailable
    } else if all_digits(text) && digits_value(text) <= usize::MAX {
        CountReading::Count(digits_value(text) as usize)
    } else {
        CountReading::Malformed
    }
}

/// The rate that a text with a slash writes: the number before the first
/// slash over the number after it. What follows a second slash is not read.
pub open spec fn ratio_of(text: Seq<u8>) -> Option<FrameRate>
    recommends
        first_at(text, SLASH) < text.len(),
{
    let num = number_of(field(text, SLASH));
    let den = number_of(field(after_field(text, SLASH), SLASH));
    if num is Some && den is Some {
        Some(FrameRate { num: num->0, den: den->0 })
    } else {
        None
    }
}

/// The rate that a text without a slash writes: a whole number, or a whole
/// number, a point and a fraction, which is taken over the power of ten of
/// the fraction's length.
pub open spec fn decimal_of(text: Seq<u8>) -> Option<FrameRate> {
    if first_at(text, POINT) >= text.len() {
        match number_of(text) {
            Some(n) => Some(FrameRate { num: n, den: 1 }),
            None => None,
        }
    } else {
        let whole = field(text, POINT);
        let part = after_field(text, POINT);
        let scale = pow10(part.len());
        let value = digits_value(whole) * scale + digits_value(part);
        if all_digits(whole) && all_digits(part) && scale <= u64::MAX && value <= u64::MAX {
            Some(FrameRate { num: value as u64, den: scale as u64 })
        } else {
            None
        }
    }
}

/// What the probe said about the frame rate.
#[derive(Clone, Copy, Debug, PartialEq, Eq, Structural)]
pub enum RateReading {
    /// The frame rate.
    Rate(FrameRate),
    /// A text with a slash that is no ratio of two numbers.
    BadFraction,
    /// A text without a slash that is no number.
    BadNumber,
}

/// What `output` says about the frame rate.
pub open spec fn frame_rate_of(output: Seq<u8>) -> RateReading {
    let text = trimmed(output);
    if first_at(text, SLASH) < text.len() {
        match ratio_of(text) {
            Some(rate) => RateReading::Rate(rate),
            None => RateReading::BadFraction,
        }
    } else {
        match decimal_of(text) {
            Some(rate) => RateReading::Rate(rate),
            None => RateReading::BadNumber,
        }
    }
}

/// The number of the frame kept in the file named `file_name`: what stands
/// before the first point of the name, where that is a number. The frames of
/// the cache are read in the order of these numbers.
pub fn frame_number(file_name: &[u8]) -> (r: Option<u64>)
    ensures
        r == number_of(field(file_name@, POINT)),
{
    let point = find_byte(file_name, 0, file_name.len(), POINT);
    proof {
        assert(file_name@.subrange(0, file_name@.len() as int) =~= file_name@);
        assert(field(file_name@, POINT) =~= file_name@.subrange(0, point as int));
    }
    parse_digits(file_name, 0, point)
}

/// Reads the number of frames from what the probe printed.
pub fn parse_frame_count(output: &[u8]) -> (r: CountReading)
    ensures
        r == frame_count_of(output@),
{
    let (from, to) = trim_bounds(output);
    let ghost text = output@.subrange(from as int, to as int);
    if to - from == 3 && output[from] == 78 && output[from + 1] == SLASH && output[from + 2] == 65 {
        assert(text =~= not_available());
        return CountReading::Unavailable;
    }
    proof {
        if text == not_available() {
            assert(text[0] == 78 && text[1] == 47 && text[2] == 65);
        }
    }
    match parse_digits(output, from, to) {
        Some(count) => {
            if count <= usize::MAX as u64 {
                CountReading::Count(count as usize)
            } else {
                CountReading::Malformed
            }
        },
        None => CountReading::Malformed,
    }
}

/// Reads the frame rate from what the probe printed: `a/b` with two
/// numbers, a whole number, or a number with a decimal point.
pub fn parse_frame_rate(output: &[u8]) -> (r: RateReading)
    ensures
        r == frame_rate_of(output@),
{
    let (from, to) = trim_bounds(output);
    let ghost text = output@.subrange(from as int, to as int);
    let slash = find_byte(output, from, to, SLASH);
    if slash < to {
        let end = find_byte(output, slash + 1, to, SLASH);
        proof {
            let rest = output@.subrange(slash + 1, to as int);
            assert(field(text, SLASH) =~= output@.subrange(from as int, slash as int));
            assert(after_field(text, SLASH) =~= rest);
            assert(field(rest, SLASH) =~= output@.subrange(slash + 1, end as int));
        }
        let num = parse_digits(output, from, slash);
        let den = parse_digits(output, slash + 1, end);
        match (num, den) {
            (Some(num), Some(den)) => RateReading::Rate(FrameRate { num, den }),
            _ => RateReading::BadFraction,
        }
    } else {
        let point = find_byte(output, from, to, POINT);
        if point >= to {
            match parse_digits(output, from, to) {
                Some(num) => RateReading::Rate(FrameRate { num, den: 1 }),
                None => RateReading::BadNumber,
            }
        } else {
            let ghost whole_text = output@.subrange(from as int, point as int);
            let ghost part_text = output@.subrange(point + 1, to as int);
            proof {
                assert(field(text, POINT) =~= whole_text);
                assert(after_field(text, POINT) =~= part_text);
                lemma_pow10_grows(0, part_text.len());
                assert(digits_value(whole_text) * pow10(part_text.len()) >= digits_value(whole_text))
                    by (nonlinear_arith)
                    requires
                        pow10(part_text.len()) >= 1,
                ;
            }
            let whole = parse_digits(output, from, point);
            let part = parse_digits(output, point + 1, to);
            let scale = power_of_ten(to - point - 1);
            match (whole, part, scale) {
                (Some(whole), Some(part), Some(scale)) => {
                    assert(whole * scale <= u64::MAX * u64::MAX) by (nonlinear_arith)
                        requires
                            whole <= u64::MAX,
                            scale <= u64::MAX,
                    ;
                    let value: u128 = (whole as u128) * (scale as u128) + (part as u128);
                    if value <= u64::MAX as u128 {
                        RateReading::Rate(FrameRate { num: value as u64, den: scale })
                    } else {
                        RateReading::BadNumber
                    }
                },
                _ => RateReading::BadNumber,
            }
        }
    }
}

} // verus!
