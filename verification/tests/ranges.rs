use state_machine::range::{
    count_digits, cut_nanos, parse_number, parse_number_bound, parse_span, split_range, CliRange,
    DurationError, NumberError, RangeError, Span, MAX_DURATION_DIGITS,
};

#[test]
fn a_range_text_splits_at_its_first_two_dots() {
    assert_eq!(split_range("1..5"), ("1", Some("5")));
    assert_eq!(split_range("15"), ("15", None));
    assert_eq!(split_range(""), ("", None));
    assert_eq!(split_range("."), (".", None));
    assert_eq!(split_range(".."), ("", Some("")));
    assert_eq!(split_range("1...5"), ("1", Some(".5")));
    assert_eq!(split_range("1..2..3"), ("1", Some("2..3")));
    assert_eq!(split_range("1.5s..2s"), ("1.5s", Some("2s")));
    assert_eq!(split_range("a.b.c"), ("a.b.c", None));
    assert_eq!(split_range("é..ü"), ("é", Some("ü")));
    assert_eq!(split_range("10.."), ("10", Some("")));
}

#[test]
fn numbers_are_digits_behind_an_optional_plus() {
    assert_eq!(parse_number("0"), Ok(0));
    assert_eq!(parse_number("007"), Ok(7));
    assert_eq!(parse_number("+42"), Ok(42));
    assert_eq!(parse_number("1450"), Ok(1450));
    assert_eq!(parse_number("18446744073709551615"), Ok(u64::MAX));
    assert_eq!(parse_number("18446744073709551616"), Err(NumberError::PosOverflow));
    assert_eq!(parse_number("99999999999999999999999"), Err(NumberError::PosOverflow));
    assert_eq!(parse_number(""), Err(NumberError::Empty));
    assert_eq!(parse_number("+"), Err(NumberError::InvalidDigit));
    assert_eq!(parse_number("-1"), Err(NumberError::InvalidDigit));
    assert_eq!(parse_number("++1"), Err(NumberError::InvalidDigit));
    assert_eq!(parse_number(" 1"), Err(NumberError::InvalidDigit));
    assert_eq!(parse_number("1 "), Err(NumberError::InvalidDigit));
    assert_eq!(parse_number("1_000"), Err(NumberError::InvalidDigit));
    assert_eq!(parse_number("12a"), Err(NumberError::InvalidDigit));
    assert_eq!(parse_number("٣"), Err(NumberError::InvalidDigit));
}

#[test]
fn what_stops_the_reading_first_decides() {
    // the value is too large before the letter is reached
    assert_eq!(parse_number("99999999999999999999999x"), Err(NumberError::PosOverflow));
    // the letter is reached before the value is too large
    assert_eq!(parse_number("9x9999999999999999999999"), Err(NumberError::InvalidDigit));
    assert_eq!(parse_number("1844674407370955161x"), Err(NumberError::InvalidDigit));
}

#[test]
fn numbers_read_as_the_standard_parser_reads_them() {
    for text in [
        "0",
        "+0",
        "12",
        "+12",
        "012",
        "",
        "+",
        "-",
        "-0",
        "1+",
        "4294967296",
        "1e3",
        "18446744073709551615",
        "18446744073709551616",
        "00000000000000000000000001",
        "99999999999999999999999x",
        "9x9999999999999999999999",
    ] {
        let expected = text.parse::<u64>().map_err(|e| format!("{:?}", e.kind()));
        let found = parse_number(text).map_err(|e| format!("{e:?}"));
        assert_eq!(found, expected, "{text:?}");
    }
}

#[test]
fn a_number_range_has_two_bounds_or_one() {
    let range: CliRange<u64> = CliRange::<u64>::from_str("3..9").unwrap();
    assert_eq!((range.start, range.end), (3, 9));
    let range: CliRange<u64> = CliRange::<u64>::from_str("4096").unwrap();
    assert_eq!((range.start, range.end), (4096, 4096));
    let range: CliRange<u64> = "9..3".parse().unwrap();
    assert_eq!((range.start, range.end), (9, 3));
    assert_eq!(
        CliRange::<u64>::from_str("3..").unwrap_err(),
        RangeError::Number(NumberError::Empty)
    );
    assert_eq!(
        CliRange::<u64>::from_str("..3").unwrap_err(),
        RangeError::Number(NumberError::Empty)
    );
    assert_eq!(
        CliRange::<u64>::from_str("a").unwrap_err(),
        RangeError::Number(NumberError::InvalidDigit)
    );
    assert_eq!(
        CliRange::<u64>::from_str("1..2..3").unwrap_err(),
        RangeError::Number(NumberError::InvalidDigit)
    );
    assert_eq!(
        CliRange::<u64>::from_str("1..99999999999999999999").unwrap_err(),
        RangeError::Number(NumberError::PosOverflow)
    );
    assert_eq!(parse_number_bound("7"), Ok(7));
    assert_eq!(parse_number_bound("x"), Err(RangeError::Number(NumberError::InvalidDigit)));
}

#[test]
fn bounds_are_combined_start_first() {
    assert_eq!(
        CliRange::<u64>::from_bounds::<u8>(Ok(1), Some(Ok(2))).map(|r| (r.start, r.end)),
        Ok((1, 2))
    );
    assert_eq!(
        CliRange::<u64>::from_bounds::<u8>(Ok(1), None).map(|r| (r.start, r.end)),
        Ok((1, 1))
    );
    assert_eq!(
        CliRange::<u64>::from_bounds::<u8>(Err(7), Some(Err(8))).map(|r| (r.start, r.end)),
        Err(7)
    );
    assert_eq!(
        CliRange::<u64>::from_bounds::<u8>(Ok(1), Some(Err(8))).map(|r| (r.start, r.end)),
        Err(8)
    );
    assert_eq!(
        CliRange::<u64>::from_bounds::<u8>(Err(7), None).map(|r| (r.start, r.end)),
        Err(7)
    );
}

#[test]
fn a_duration_range_is_read_by_its_units() {
    let range = CliRange::<Span>::from_str("100ms..2s").unwrap();
    assert_eq!(range.start, Span { secs: 0, nanos: 100_000_000 });
    assert_eq!(range.end, Span { secs: 2, nanos: 0 });
    let range = CliRange::<Span>::from_str("0ms").unwrap();
    assert_eq!(range.start, Span { secs: 0, nanos: 0 });
    assert_eq!(range.end, range.start);
    let range: CliRange<Span> = "1h 1ns..1.5s".parse().unwrap();
    assert_eq!(range.start, Span { secs: 3600, nanos: 1 });
    assert_eq!(range.end, Span { secs: 1, nanos: 500_000_000 });
}

#[test]
fn a_bad_duration_says_what_is_wrong() {
    assert_eq!(
        CliRange::<Span>::from_str("").unwrap_err(),
        RangeError::Duration(DurationError::Empty)
    );
    assert_eq!(
        CliRange::<Span>::from_str("1s..").unwrap_err(),
        RangeError::Duration(DurationError::Empty)
    );
    assert_eq!(
        CliRange::<Span>::from_str("ms").unwrap_err(),
        RangeError::Duration(DurationError::NumberExpected { offset: 0 })
    );
    assert_eq!(
        CliRange::<Span>::from_str("1s..5parsecs").unwrap_err(),
        RangeError::Duration(DurationError::UnknownUnit {
            start: 1,
            end: 8,
            unit: "parsecs".to_string(),
            value: 5
        })
    );
    assert_eq!(
        CliRange::<Span>::from_str("1s..3#").unwrap_err(),
        RangeError::Duration(DurationError::InvalidCharacter { offset: 1 })
    );
    assert_eq!(
        CliRange::<Span>::from_str("0.5ns").unwrap_err(),
        RangeError::Duration(DurationError::NumberOverflow)
    );
    assert_eq!(
        CliRange::<Span>::from_str("1s..1.0000000001s").unwrap_err(),
        RangeError::Duration(DurationError::NumberOverflow)
    );
    // the first bound that fails decides
    assert_eq!(
        CliRange::<Span>::from_str("x..").unwrap_err(),
        RangeError::Duration(DurationError::NumberExpected { offset: 0 })
    );
}

#[test]
fn a_single_value_is_always_drawn() {
    let range = CliRange { start: 1450u64, end: 1450 };
    for _ in 0..20 {
        assert_eq!(range.gen(), 1450);
    }
    assert_eq!(CliRange { start: u64::MAX, end: u64::MAX }.gen(), u64::MAX);
}

#[test]
fn a_range_of_one_value_leaves_no_choice() {
    let range = CliRange { start: 5u64, end: 6 };
    for _ in 0..50 {
        assert_eq!(range.gen(), 5);
    }
}

#[test]
fn draws_stay_inside_the_range() {
    let range = CliRange { start: 10u64, end: 1_000_000 };
    let mut beyond_start = false;
    for _ in 0..500 {
        let v = range.gen();
        assert!((10..1_000_000).contains(&v));
        beyond_start |= v != 10;
    }
    assert!(beyond_start);
    let wide = CliRange { start: 0u64, end: u64::MAX };
    for _ in 0..100 {
        assert!(wide.gen() < u64::MAX);
    }
}

#[test]
fn a_span_counts_nanoseconds() {
    assert_eq!(Span { secs: 0, nanos: 0 }.as_nanos(), 0);
    assert_eq!(Span { secs: 2, nanos: 5 }.as_nanos(), 2_000_000_005);
    assert_eq!(
        Span { secs: u64::MAX, nanos: 999_999_999 }.as_nanos(),
        u64::MAX as u128 * 1_000_000_000 + 999_999_999
    );
}

#[test]
fn nanoseconds_are_cut_to_64_bits() {
    assert_eq!(cut_nanos(0), 0);
    assert_eq!(cut_nanos(u64::MAX as u128), u64::MAX);
    assert_eq!(cut_nanos(u64::MAX as u128 + 1), 0);
    assert_eq!(cut_nanos((7u128 << 64) + 12), 12);
}

#[test]
fn durations_are_drawn_in_nanoseconds() {
    let fixed = CliRange { start: Span { secs: 0, nanos: 100 }, end: Span { secs: 0, nanos: 100 } };
    assert_eq!(fixed.gen_duration(), 100);
    let range = CliRange { start: Span { secs: 1, nanos: 0 }, end: Span { secs: 2, nanos: 0 } };
    let mut beyond_start = false;
    for _ in 0..200 {
        let v = range.gen_duration();
        assert!((1_000_000_000..2_000_000_000).contains(&v));
        beyond_start |= v != 1_000_000_000;
    }
    assert!(beyond_start);
    let one = CliRange { start: Span { secs: 0, nanos: 7 }, end: Span { secs: 0, nanos: 8 } };
    assert_eq!(one.gen_duration(), 7);
}

#[test]
fn a_long_duration_wraps_round() {
    // 2^64 nanoseconds are 18446744073 s and 709551616 ns
    let fixed = CliRange {
        start: Span { secs: 18_446_744_073, nanos: 709_551_621 },
        end: Span { secs: 18_446_744_073, nanos: 709_551_621 },
    };
    assert_eq!(fixed.gen_duration(), 5);
}

#[test]
fn the_caller_may_do_the_drawing() {
    let range = CliRange { start: 10u64, end: 20 };
    assert_eq!(range.gen_with(|low, high| (low + high) / 2), 15);
    assert_eq!(
        range.gen_with(|low, high| {
            assert_eq!((low, high), (10, 20));
            19
        }),
        19
    );
    let fixed = CliRange { start: 7u64, end: 7 };
    assert_eq!(fixed.gen_with(|_, _| panic!("nothing to draw")), 7);
}

#[test]
fn the_caller_may_draw_durations() {
    let range = CliRange { start: Span { secs: 1, nanos: 5 }, end: Span { secs: 3, nanos: 0 } };
    assert_eq!(
        range.gen_duration_with(|low, high| {
            assert_eq!((low, high), (1_000_000_005, 3_000_000_000));
            2_000_000_000
        }),
        2_000_000_000
    );
    assert_eq!(range.gen_duration_with(|_, high| high - 1), 2_999_999_999);
    let fixed = CliRange { start: Span { secs: 0, nanos: 9 }, end: Span { secs: 0, nanos: 9 } };
    assert_eq!(fixed.gen_duration_with(|_, _| panic!("nothing to draw")), 9);
    let long = CliRange {
        start: Span { secs: 18_446_744_073, nanos: 0 },
        end: Span { secs: 18_446_744_074, nanos: 0 },
    };
    assert_eq!(long.gen_duration_with(|_, _| (1u128 << 64) + 3), 3);
}

#[test]
fn digits_are_counted() {
    assert_eq!(count_digits(""), 0);
    assert_eq!(count_digits("ms"), 0);
    assert_eq!(count_digits("12h 5min 2ns"), 4);
    assert_eq!(count_digits("1.50s"), 3);
    assert_eq!(count_digits("٣4"), 1);
    assert_eq!(count_digits("00000000000"), 11);
    assert_eq!(MAX_DURATION_DIGITS, 11);
}

#[test]
fn a_duration_of_eleven_digits_is_read() {
    assert_eq!(parse_span("99999999999s"), Ok(Span { secs: 99_999_999_999, nanos: 0 }));
    assert_eq!(
        parse_span("99999999999y"),
        Ok(Span { secs: 99_999_999_999 * 31_557_600, nanos: 0 })
    );
    assert_eq!(parse_span("12345678901ns"), Ok(Span { secs: 12, nanos: 345_678_901 }));
    assert_eq!(parse_span("1s 1000ms"), Ok(Span { secs: 2, nanos: 0 }));
    assert_eq!(parse_span("999999y 99999w"), Ok(Span {
        secs: 999_999 * 31_557_600 + 99_999 * 604_800,
        nanos: 0
    }));
}

#[test]
fn a_duration_of_more_digits_is_not_read() {
    assert_eq!(parse_span("100000000000s"), Err(RangeError::TooManyDigits));
    assert_eq!(parse_span("18446744073709551615s 1000ms"), Err(RangeError::TooManyDigits));
    assert_eq!(parse_span("000000000001s"), Err(RangeError::TooManyDigits));
    assert_eq!(parse_span("1.00000000000s"), Err(RangeError::TooManyDigits));
    assert_eq!(
        CliRange::<Span>::from_str("1s..18446744073709551615s 1000ms").unwrap_err(),
        RangeError::TooManyDigits
    );
    assert_eq!(
        CliRange::<Span>::from_str("99999999999999999999s").unwrap_err(),
        RangeError::TooManyDigits
    );
    // each bound is counted by itself
    let range = CliRange::<Span>::from_str("99999999999s..99999999999s").unwrap();
    assert_eq!(range.start, range.end);
}
