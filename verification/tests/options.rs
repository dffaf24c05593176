use pfmt::util::{
    apply_common_numeric_options, apply_common_options, apply_truncation, apply_width, Justification,
};
use pfmt::{Fmt, FormatTableExt, FormattingError, NameMap, SingleFmtError};

fn options(pairs: &[(&str, &str)]) -> NameMap<String> {
    let mut m = NameMap::new();
    for (k, v) in pairs {
        m.insert(k.to_string(), v.to_string());
    }
    m
}

fn widened(s: &str, value: &str) -> Result<String, SingleFmtError> {
    let mut s = s.to_string();
    apply_width(&mut s, &options(&[("width", value)])).map(|_| s)
}

fn cut(s: &str, value: &str) -> Result<String, SingleFmtError> {
    let mut s = s.to_string();
    apply_truncation(&mut s, &options(&[("truncate", value)])).map(|_| s)
}

#[test]
fn width_left() {
    let string = "foobar";
    let mut table: NameMap<&dyn Fmt> = NameMap::new();
    table.insert("s".to_string(), &string);
    let s = table.format("{s::width=l10}").unwrap();
    assert_eq!(s.as_str(), "foobar    ");
}

#[test]
fn width_right() {
    let string = "foobar";
    let mut table: NameMap<&dyn Fmt> = NameMap::new();
    table.insert("s".to_string(), &string);
    let s = table.format("{s::width=r10}").unwrap();
    assert_eq!(s.as_str(), "    foobar");
}

#[test]
fn width_center() {
    let string = "foobar";
    let mut table: NameMap<&dyn Fmt> = NameMap::new();
    table.insert("s".to_string(), &string);
    let s = table.format("{s::width=c10}").unwrap();
    assert_eq!(s.as_str(), "  foobar  ");
}

#[test]
fn truncate_left() {
    let string = "1234567890";
    let mut table: NameMap<&dyn Fmt> = NameMap::new();
    table.insert("s".to_string(), &string);
    let s = table.format("{s::truncate=l5}").unwrap();
    assert_eq!(s.as_str(), "67890");
}

#[test]
fn truncate_right() {
    let string = "1234567890";
    let mut table: NameMap<&dyn Fmt> = NameMap::new();
    table.insert("s".to_string(), &string);
    let s = table.format("{s::truncate=r5}").unwrap();
    assert_eq!(s.as_str(), "12345");
}

#[test]
fn truncate_then_pad() {
    let string = "1234567890";
    let mut table: NameMap<&dyn Fmt> = NameMap::new();
    table.insert("s".to_string(), &string);
    assert_eq!(table.format("{s::truncate=r5:width=l10}").unwrap(), "12345     ");
    assert_eq!(table.format("{s::width=l10:truncate=r5}").unwrap(), "12345     ");
    assert_eq!(table.format("{s::width=r7:truncate=l5}").unwrap(), "  67890");
    let mut s = "1234567890".to_string();
    apply_common_options(&mut s, &options(&[("truncate", "r5"), ("width", "l10")])).unwrap();
    assert_eq!(s, "12345     ");
}

#[test]
fn centering_puts_the_smaller_half_left() {
    assert_eq!(widened("ab", "c5").unwrap(), " ab  ");
    assert_eq!(widened("ab", "c3").unwrap(), "ab ");
    assert_eq!(widened("", "c1").unwrap(), " ");
}

#[test]
fn width_counts_characters_and_never_cuts() {
    assert_eq!(widened("héé", "l5").unwrap(), "héé  ");
    assert_eq!(widened("héé", "r5").unwrap(), "  héé");
    assert_eq!(widened("abc", "l3").unwrap(), "abc");
    assert_eq!(widened("abc", "l2").unwrap(), "abc");
    assert_eq!(widened("abc", "r0").unwrap(), "abc");
    assert_eq!(widened("abc", "l007").unwrap(), "abc    ");
}

#[test]
fn truncation_counts_characters() {
    assert_eq!(cut("héllo", "r2").unwrap(), "hé");
    assert_eq!(cut("héllo", "l4").unwrap(), "éllo");
    assert_eq!(cut("abc", "l0").unwrap(), "");
    assert_eq!(cut("abc", "r0").unwrap(), "");
    assert_eq!(cut("abc", "r3").unwrap(), "abc");
    assert_eq!(cut("abc", "l9").unwrap(), "abc");
}

#[test]
fn without_the_option_nothing_changes() {
    let mut s = "abc".to_string();
    assert_eq!(apply_width(&mut s, &options(&[("truncate", "r1")])), Ok(()));
    assert_eq!(s, "abc");
    assert_eq!(apply_truncation(&mut s, &options(&[("width", "l9")])), Ok(()));
    assert_eq!(s, "abc");
    assert_eq!(apply_common_options(&mut s, &options(&[])), Ok(()));
    assert_eq!(s, "abc");
}

#[test]
fn bad_width_values() {
    for bad in ["", "l", "x5", "5", "l-1", "l+5", "l5x", "L5", "c 5", "l99999999999999999999999999"] {
        let mut s = "abc".to_string();
        assert_eq!(
            apply_width(&mut s, &options(&[("width", bad)])),
            Err(SingleFmtError::InvalidOptionValue("width".to_string(), bad.to_string()))
        );
        assert_eq!(s, "abc");
    }
}

#[test]
fn bad_truncate_values() {
    for bad in ["", "r", "c5", "5", "l-1", "r+5", "r5x", "R5", "r99999999999999999999999999"] {
        let mut s = "abc".to_string();
        assert_eq!(
            apply_truncation(&mut s, &options(&[("truncate", bad)])),
            Err(SingleFmtError::InvalidOptionValue("truncate".to_string(), bad.to_string()))
        );
        assert_eq!(s, "abc");
    }
}

#[test]
fn common_options_fail_in_order() {
    let mut s = "abcdef".to_string();
    assert_eq!(
        apply_common_options(&mut s, &options(&[("truncate", "zz"), ("width", "zz")])),
        Err(SingleFmtError::InvalidOptionValue("truncate".to_string(), "zz".to_string()))
    );
    assert_eq!(s, "abcdef");
    assert_eq!(
        apply_common_options(&mut s, &options(&[("truncate", "r2"), ("width", "zz")])),
        Err(SingleFmtError::InvalidOptionValue("width".to_string(), "zz".to_string()))
    );
    assert_eq!(s, "ab");
    let string = "foobar";
    let mut table: NameMap<&dyn Fmt> = NameMap::new();
    table.insert("s".to_string(), &string);
    assert_eq!(
        table.format("{s::width=wide}"),
        Err(FormattingError::InvalidOptionValue("width".to_string(), "wide".to_string()))
    );
}

#[test]
fn plus_flag_on_text() {
    let none = options(&[]);
    let mut s = "12".to_string();
    assert_eq!(apply_common_numeric_options(&mut s, &['+'], &none), Ok(()));
    assert_eq!(s, "+12");
    let mut s = "-12".to_string();
    assert_eq!(apply_common_numeric_options(&mut s, &['+'], &none), Ok(()));
    assert_eq!(s, "-12");
    let mut s = "12".to_string();
    assert_eq!(apply_common_numeric_options(&mut s, &['x'], &none), Ok(()));
    assert_eq!(s, "12");
    let mut s = String::new();
    assert_eq!(apply_common_numeric_options(&mut s, &['+'], &none), Ok(()));
    assert_eq!(s, "");
}

#[test]
fn justifications_are_distinct() {
    assert_ne!(Justification::Left(), Justification::Right());
    assert_ne!(Justification::Left(), Justification::Center());
    assert_eq!(Justification::Center(), Justification::Center());
}
