//! How a frame rate is written in a status line.
//!
//! A rate is shown as its quotient, written out in decimal digits, wherever
//! the quotient comes out even within nineteen digits after the point: `25`
//! for 25/1, `29.97` for 2997/100, `7.5` for 15/2. The digits are those of
//! the exact quotient, however many it has before the point. A rate over
//! zero is shown as `inf`, zero over zero as `NaN`. A quotient that does not
//! come out even, such as 30000/1001, would have to be rounded; it is shown
//! as the ratio itself, `30000/1001`, which is exact.

use vstd::prelude::*;
use vstd::string::*;
use crate::probe::{lemma_pow10_grows, pow10};
use crate::state::FrameRate;
use crate::text::{decimal, decimal_string, padded, padded_string};

verus! {

/// The most digits after the point that a quotient is written with.
pub const MOST_PLACES: usize = 19;

/// Whether the quotient of `rate` comes out even with `places` digits after
/// the point.
pub open spec fn exact_with(rate: FrameRate, places: nat) -> bool {
    rate.den > 0 && (rate.num * pow10(places)) % (rate.den as int) == 0
}

/// The least number of digits after the point, from `from` on, with which
/// the quotient of `rate` comes out even; none where it takes more than
/// nineteen.
pub open spec fn places_from(rate: FrameRate, from: nat) -> Option<nat>
    decreases 20 - from,
{
    if from > MOST_PLACES {
        None
    } else if exact_with(rate, from) {
        Some(from)
    } else {
        places_from(rate, from + 1)
    }
}

/// The quotient of `rate`, written with `places` digits after the point and
/// no point where there is no digit after it.
pub open spec fn quotient_text(rate: FrameRate, places: nat) -> Seq<char>
    recommends
        exact_with(rate, places),
{
    let scaled = (rate.num * pow10(places) / (rate.den as int)) as nat;
    if places == 0 {
        decimal(scaled)
    } else {
        decimal(scaled / pow10(places)) + "."@ + padded(scaled % pow10(places), places)
    }
}

/// The text that shows `rate`.
pub open spec fn rate_text(rate: FrameRate) -> Seq<char> {
    if rate.den == 0 {
        if rate.num == 0 {
            "NaN"@
        } else {
            "inf"@
        }
    } else {
        match places_from(rate, 0) {
            Some(places) => quotient_text(rate, places),
            None => decimal(rate.num as nat) + "/"@ + decimal(rate.den as nat),
        }
    }
}

/// Writes `rate` as a status line shows it.
pub fn rate_string(rate: FrameRate) -> (text: String)
    ensures
        text@ == rate_text(rate),
{
    if rate.den == 0 {
        return if rate.num == 0 {
            "NaN".to_owned()
        } else {
            "inf".to_owned()
        };
    }
    let mut places: usize = 0;
    let mut scale: u64 = 1;
    loop
        invariant
            rate.den > 0,
            places <= MOST_PLACES,
            scale >= 1,
            scale == pow10(places as nat),
            places_from(rate, 0) == places_from(rate, places as nat),
        ensures
            places_from(rate, 0) is None,
        decreases MOST_PLACES - places,
    {
        assert(rate.num * scale <= u64::MAX * u64::MAX) by (nonlinear_arith)
            requires
                rate.num <= u64::MAX,
                scale <= u64::MAX,
        ;
        let product: u128 = (rate.num as u128) * (scale as u128);
        if product % (rate.den as u128) == 0 {
            let scaled: u128 = product / (rate.den as u128);
            if places == 0 {
                return decimal_string(scaled);
            }
            let mut text = decimal_string(scaled / (scale as u128));
            text.append(".");
            text.append(padded_string(scaled % (scale as u128), places).as_str());
            return text;
        }
        assert(places_from(rate, places as nat) == places_from(rate, (places + 1) as nat));
        if places == MOST_PLACES {
            assert(places_from(rate, 20) is None);
            break;
        }
        proof {
            lemma_pow10_grows(places as nat, 18);
            lemma_pow10_18();
        }
        scale = scale * 10;
        places = places + 1;
    }
    let mut text = decimal_string(rate.num as u128);
    text.append("/");
    text.append(decimal_string(rate.den as u128).as_str());
    text
}

proof fn lemma_pow10_18()
    ensures
        pow10(18) == 1_000_000_000_000_000_000,
{
    reveal_with_fuel(pow10, 19);
}

/// A whole rate is shown as the whole number alone.
pub proof fn lemma_whole_rate_text(rate: FrameRate)
    requires
        rate.den > 0,
        rate.num % rate.den == 0,
    ensures
        rate_text(rate) == decimal((rate.num / rate.den) as nat),
{
    assert(pow10(0) == 1);
    assert(rate.num * 1 == rate.num);
}

} // verus!
