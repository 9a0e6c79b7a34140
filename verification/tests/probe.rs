use scene_split::probe::{
    frame_number, parse_frame_count, parse_frame_rate, CountReading, RateReading,
};
use scene_split::rate::rate_string;
use scene_split::state::FrameRate;
use scene_split::text::{decimal_string, padded_string};

fn rate(num: u64, den: u64) -> RateReading {
    RateReading::Rate(FrameRate { num, den })
}

fn shown(num: u64, den: u64) -> String {
    rate_string(FrameRate { num, den })
}

#[test]
fn a_rate_as_a_fraction() {
    assert_eq!(parse_frame_rate(b"30000/1001\n"), rate(30000, 1001));
    assert_eq!(parse_frame_rate(b"25/1"), rate(25, 1));
    assert_eq!(parse_frame_rate(b"  24/1 \r\n"), rate(24, 1));
}

#[test]
fn a_rate_as_a_whole_number() {
    assert_eq!(parse_frame_rate(b"25\n"), rate(25, 1));
    assert_eq!(parse_frame_rate(b"0"), rate(0, 1));
    assert_eq!(parse_frame_rate(b"007"), rate(7, 1));
}

#[test]
fn a_rate_with_a_decimal_point() {
    assert_eq!(parse_frame_rate(b"29.97\n"), rate(2997, 100));
    assert_eq!(parse_frame_rate(b"23.976"), rate(23976, 1000));
    assert_eq!(parse_frame_rate(b"30.0"), rate(300, 10));
    assert_eq!(parse_frame_rate(b"0.5"), rate(5, 10));
}

#[test]
fn a_zero_denominator_is_kept_as_reported() {
    assert_eq!(parse_frame_rate(b"0/0\n"), rate(0, 0));
    assert_eq!(parse_frame_rate(b"30/0"), rate(30, 0));
}

#[test]
fn what_follows_a_second_slash_is_not_read() {
    assert_eq!(parse_frame_rate(b"30/1/zzz"), rate(30, 1));
    assert_eq!(parse_frame_rate(b"30/1/"), rate(30, 1));
}

#[test]
fn what_is_no_rate() {
    assert_eq!(parse_frame_rate(b""), RateReading::BadNumber);
    assert_eq!(parse_frame_rate(b"\n"), RateReading::BadNumber);
    assert_eq!(parse_frame_rate(b"N/A"), RateReading::BadFraction);
    assert_eq!(parse_frame_rate(b"/"), RateReading::BadFraction);
    assert_eq!(parse_frame_rate(b"30/"), RateReading::BadFraction);
    assert_eq!(parse_frame_rate(b"/30"), RateReading::BadFraction);
    assert_eq!(parse_frame_rate(b"30//1"), RateReading::BadFraction);
    assert_eq!(parse_frame_rate(b"3 0/1"), RateReading::BadFraction);
    assert_eq!(parse_frame_rate(b"-30/1"), RateReading::BadFraction);
    assert_eq!(parse_frame_rate(b"29.97/1"), RateReading::BadFraction);
    assert_eq!(parse_frame_rate(b"29."), RateReading::BadNumber);
    assert_eq!(parse_frame_rate(b".97"), RateReading::BadNumber);
    assert_eq!(parse_frame_rate(b"2.9.7"), RateReading::BadNumber);
    assert_eq!(parse_frame_rate(b"abc"), RateReading::BadNumber);
    assert_eq!(parse_frame_rate(b"1e3"), RateReading::BadNumber);
}

#[test]
fn a_rate_at_the_edge_of_64_bits() {
    assert_eq!(parse_frame_rate(b"18446744073709551615/1"), rate(u64::MAX, 1));
    assert_eq!(parse_frame_rate(b"18446744073709551616/1"), RateReading::BadFraction);
    assert_eq!(parse_frame_rate(b"1/18446744073709551616"), RateReading::BadFraction);
    assert_eq!(parse_frame_rate(b"18446744073709551615"), rate(u64::MAX, 1));
    assert_eq!(parse_frame_rate(b"18446744073709551616"), RateReading::BadNumber);
    assert_eq!(parse_frame_rate(b"1844674407370955161.5"), rate(u64::MAX, 10));
    assert_eq!(parse_frame_rate(b"1844674407370955161.6"), RateReading::BadNumber);
    assert_eq!(parse_frame_rate(b"0.1000000000000000000"), rate(1000000000000000000, 10000000000000000000));
    assert_eq!(parse_frame_rate(b"0.10000000000000000000"), RateReading::BadNumber);
    assert_eq!(parse_frame_rate(b"99999999999999999999999.5"), RateReading::BadNumber);
    assert_eq!(parse_frame_rate(b"1.99999999999999999999999"), RateReading::BadNumber);
}

#[test]
fn a_frame_count() {
    assert_eq!(parse_frame_count(b"1234\n"), CountReading::Count(1234));
    assert_eq!(parse_frame_count(b"0"), CountReading::Count(0));
    assert_eq!(parse_frame_count(b" \t42\r\n"), CountReading::Count(42));
    assert_eq!(parse_frame_count(b"\x0b\x0c42"), CountReading::Count(42));
}

#[test]
fn a_frame_count_that_the_probe_does_not_know() {
    assert_eq!(parse_frame_count(b"N/A\n"), CountReading::Unavailable);
    assert_eq!(parse_frame_count(b"N/A"), CountReading::Unavailable);
    assert_eq!(parse_frame_count(b"  N/A  "), CountReading::Unavailable);
}

#[test]
fn what_is_no_frame_count() {
    assert_eq!(parse_frame_count(b""), CountReading::Malformed);
    assert_eq!(parse_frame_count(b"\n"), CountReading::Malformed);
    assert_eq!(parse_frame_count(b"n/a"), CountReading::Malformed);
    assert_eq!(parse_frame_count(b"N/A."), CountReading::Malformed);
    assert_eq!(parse_frame_count(b"N/"), CountReading::Malformed);
    assert_eq!(parse_frame_count(b"12 34"), CountReading::Malformed);
    assert_eq!(parse_frame_count(b"12.5"), CountReading::Malformed);
    assert_eq!(parse_frame_count(b"-1"), CountReading::Malformed);
    assert_eq!(parse_frame_count(b"+1"), CountReading::Malformed);
    assert_eq!(parse_frame_count(b"99999999999999999999999"), CountReading::Malformed);
    assert_eq!(parse_frame_count(b"\xa01"), CountReading::Malformed);
}

#[test]
fn a_frame_count_at_the_edge_of_the_machine_word() {
    let most = format!("{}", usize::MAX);
    assert_eq!(parse_frame_count(most.as_bytes()), CountReading::Count(usize::MAX));
    let more = format!("{}", usize::MAX as u128 + 1);
    assert_eq!(parse_frame_count(more.as_bytes()), CountReading::Malformed);
}

#[test]
fn numerals() {
    assert_eq!(decimal_string(0), "0");
    assert_eq!(decimal_string(7), "7");
    assert_eq!(decimal_string(10), "10");
    assert_eq!(decimal_string(909), "909");
    assert_eq!(decimal_string(1234567890), "1234567890");
    assert_eq!(decimal_string(u64::MAX as u128), "18446744073709551615");
    assert_eq!(decimal_string(u64::MAX as u128 + 1), "18446744073709551616");
    assert_eq!(decimal_string(u128::MAX), "340282366920938463463374607431768211455");
}

#[test]
fn the_number_in_the_name_of_a_frame() {
    assert_eq!(frame_number(b"1.png"), Some(1));
    assert_eq!(frame_number(b"0042.png"), Some(42));
    assert_eq!(frame_number(b"17"), Some(17));
    assert_eq!(frame_number(b"17.tar.gz"), Some(17));
    assert_eq!(frame_number(b"18446744073709551615.png"), Some(u64::MAX));
}

#[test]
fn a_name_without_a_number() {
    assert_eq!(frame_number(b""), None);
    assert_eq!(frame_number(b".png"), None);
    assert_eq!(frame_number(b"frame1.png"), None);
    assert_eq!(frame_number(b"1a.png"), None);
    assert_eq!(frame_number(b" 1.png"), None);
    assert_eq!(frame_number(b"18446744073709551616.png"), None);
}

#[test]
fn numerals_of_a_fixed_length() {
    assert_eq!(padded_string(97, 2), "97");
    assert_eq!(padded_string(7, 3), "007");
    assert_eq!(padded_string(0, 2), "00");
    assert_eq!(padded_string(1234, 2), "34");
    assert_eq!(padded_string(5, 0), "");
}

#[test]
fn a_whole_rate_is_shown_as_the_whole_number() {
    assert_eq!(shown(25, 1), "25");
    assert_eq!(shown(30, 1), "30");
    assert_eq!(shown(0, 1), "0");
    assert_eq!(shown(50, 2), "25");
    assert_eq!(shown(300, 10), "30");
    assert_eq!(shown(24000, 1000), "24");
    assert_eq!(shown(u64::MAX, 1), "18446744073709551615");
}

#[test]
fn a_rate_that_comes_out_even_is_shown_as_a_decimal() {
    assert_eq!(shown(2997, 100), "29.97");
    assert_eq!(shown(23976, 1000), "23.976");
    assert_eq!(shown(29970, 1000), "29.97");
    assert_eq!(shown(5, 10), "0.5");
    assert_eq!(shown(15, 2), "7.5");
    assert_eq!(shown(1, 8), "0.125");
    assert_eq!(shown(1, 1024), "0.0009765625");
    assert_eq!(shown(3, 400), "0.0075");
    assert_eq!(shown(1, 10000000000000000000), "0.0000000000000000001");
    assert_eq!(shown(u64::MAX, 2), "9223372036854775807.5");
}

#[test]
fn a_rate_that_does_not_come_out_even_is_shown_as_the_ratio() {
    assert_eq!(shown(30000, 1001), "30000/1001");
    assert_eq!(shown(24000, 1001), "24000/1001");
    assert_eq!(shown(1, 3), "1/3");
    assert_eq!(shown(1, 1048576), "1/1048576");
}

#[test]
fn a_rate_over_zero() {
    assert_eq!(shown(30, 0), "inf");
    assert_eq!(shown(0, 0), "NaN");
}

#[test]
fn rates_are_shown_as_the_quotient_is_written() {
    for (num, den) in [(25u64, 1u64), (2997, 100), (15, 2), (1, 8), (50, 2), (30, 0), (0, 0), (3, 400)] {
        assert_eq!(shown(num, den), format!("{}", num as f64 / den as f64));
    }
}
