use cargo_tag::errors::OpError;
use cargo_tag::version::{parse, Version};

#[test]
fn parse_simple() {
    let v = parse("1.2.3").unwrap();
    assert_eq!(v, Version { major: 1, minor: 2, patch: 3 });
}

#[test]
fn parse_zeros() {
    let v = parse("0.0.0").unwrap();
    assert_eq!(v, Version { major: 0, minor: 0, patch: 0 });
}

#[test]
fn parse_large_components() {
    let v = parse("18446744073709551615.0.7").unwrap();
    assert_eq!(v, Version { major: u64::MAX, minor: 0, patch: 7 });
}

#[test]
fn parse_component_overflow_rejected() {
    assert_eq!(parse("18446744073709551616.0.0"), Err(OpError::ParseError));
}

#[test]
fn render_simple() {
    let v = Version { major: 1, minor: 2, patch: 3 };
    assert_eq!(v.render(), "1.2.3");
}

#[test]
fn render_large() {
    let v = Version { major: 10, minor: 0, patch: 18446744073709551615 };
    assert_eq!(v.render(), "10.0.18446744073709551615");
}

#[test]
fn round_trip_parse_render_parse() {
    for s in ["0.0.0", "1.2.3", "10.20.30", "999.0.1", "18446744073709551615.2.3"] {
        let first = parse(s).unwrap();
        let rendered = first.render();
        let second = parse(&rendered).unwrap();
        assert_eq!(first, second);
    }
}

#[test]
fn leading_zeros_parse_and_normalize() {
    let v = parse("01.002.3").unwrap();
    assert_eq!(v, Version { major: 1, minor: 2, patch: 3 });
    assert_eq!(v.render(), "1.2.3");
}

#[test]
fn parse_rejects_two_components() {
    assert_eq!(parse("1.2"), Err(OpError::ParseError));
}

#[test]
fn parse_rejects_four_components() {
    assert_eq!(parse("1.2.3.4"), Err(OpError::ParseError));
}

#[test]
fn parse_rejects_non_numeric() {
    assert_eq!(parse("1.2.x"), Err(OpError::ParseError));
}

#[test]
fn parse_rejects_empty() {
    assert_eq!(parse(""), Err(OpError::ParseError));
}

#[test]
fn parse_rejects_negative() {
    assert_eq!(parse("-1.2.3"), Err(OpError::ParseError));
}

#[test]
fn parse_rejects_empty_components() {
    assert_eq!(parse("1..3"), Err(OpError::ParseError));
    assert_eq!(parse(".2.3"), Err(OpError::ParseError));
    assert_eq!(parse("1.2."), Err(OpError::ParseError));
    assert_eq!(parse(".."), Err(OpError::ParseError));
}

#[test]
fn parse_rejects_spaces_and_suffixes() {
    assert_eq!(parse("1.2.3 "), Err(OpError::ParseError));
    assert_eq!(parse("1.2.3-alpha"), Err(OpError::ParseError));
    assert_eq!(parse("+1.2.3"), Err(OpError::ParseError));
}

#[test]
fn bump_major_resets_lower_components() {
    let mut v = Version { major: 1, minor: 2, patch: 3 };
    v.bump_major();
    assert_eq!(v, Version { major: 2, minor: 0, patch: 0 });

    let mut w = Version { major: 0, minor: 0, patch: 0 };
    w.bump_major();
    assert_eq!(w, Version { major: 1, minor: 0, patch: 0 });

    let mut x = Version { major: 7, minor: u64::MAX, patch: u64::MAX };
    x.bump_major();
    assert_eq!(x, Version { major: 8, minor: 0, patch: 0 });
}

#[test]
fn bump_minor_resets_patch() {
    let mut v = Version { major: 1, minor: 2, patch: 3 };
    v.bump_minor();
    assert_eq!(v, Version { major: 1, minor: 3, patch: 0 });

    let mut w = Version { major: 4, minor: 0, patch: u64::MAX };
    w.bump_minor();
    assert_eq!(w, Version { major: 4, minor: 1, patch: 0 });
}

#[test]
fn bump_patch_keeps_major_minor() {
    let mut v = Version { major: 1, minor: 2, patch: 3 };
    v.bump_patch();
    assert_eq!(v, Version { major: 1, minor: 2, patch: 4 });

    let mut w = Version { major: 0, minor: 9, patch: 0 };
    w.bump_patch();
    assert_eq!(w, Version { major: 0, minor: 9, patch: 1 });
}
