use drip_mailer::duration::{parse, Duration, ParseError};

#[test]
fn parses_compact_units() {
    assert_eq!(parse("14d").unwrap().secs, 14 * 86400);
    assert_eq!(parse("2w").unwrap().secs, 2 * 604800);
    assert_eq!(parse("5h").unwrap().secs, 5 * 3600);
    assert_eq!(parse("90m").unwrap().secs, 90 * 60);
    assert_eq!(parse("10s").unwrap().secs, 10);
    assert_eq!(parse("3mo").unwrap().secs, 3 * 2629746);
    assert_eq!(parse("1y").unwrap().secs, 31556952);
}

#[test]
fn parses_word_units() {
    assert_eq!(parse("1day").unwrap().secs, 86400);
    assert_eq!(parse("2days").unwrap().secs, 2 * 86400);
    assert_eq!(parse("6month").unwrap().secs, 6 * 2629746);
    assert_eq!(parse("6months").unwrap().secs, 6 * 2629746);
    assert_eq!(parse("1year").unwrap().secs, 31556952);
    assert_eq!(parse("3weeks").unwrap().secs, 3 * 604800);
    assert_eq!(parse("45minutes").unwrap().secs, 45 * 60);
    assert_eq!(parse("30seconds").unwrap().secs, 30);
    assert_eq!(parse("12hours").unwrap().secs, 12 * 3600);
}

#[test]
fn rejects_empty_token() {
    assert_eq!(parse(""), Err(ParseError::Empty));
}

#[test]
fn rejects_negative_token() {
    assert_eq!(parse("-5d"), Err(ParseError::NoMagnitude));
}

#[test]
fn rejects_unitless_token() {
    assert_eq!(parse("15"), Err(ParseError::NoUnit));
}

#[test]
fn rejects_missing_magnitude() {
    assert_eq!(parse("d"), Err(ParseError::NoMagnitude));
}

#[test]
fn rejects_unknown_unit() {
    assert_eq!(parse("15x"), Err(ParseError::UnknownUnit));
    assert_eq!(parse("15 d"), Err(ParseError::UnknownUnit));
}

#[test]
fn rejects_overflowing_values() {
    assert_eq!(parse("99999999999999999999d"), Err(ParseError::Overflow));
    assert_eq!(parse("18446744073709551615s").unwrap().secs, u64::MAX);
    assert_eq!(parse("18446744073709551616s"), Err(ParseError::Overflow));
}

#[test]
fn duration_whole_days() {
    assert_eq!(Duration { secs: 30 * 86400 }.days(), 30);
    assert_eq!(parse("12h").unwrap().days(), 0);
    assert_eq!(parse("6mo").unwrap().days(), 182);
}
