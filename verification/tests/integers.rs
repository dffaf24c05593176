use pfmt::integer::int_to_str;
use pfmt::{Fmt, FormatTableExt, FormattingError, NameMap, SingleFmtError};

fn options(pairs: &[(&str, &str)]) -> NameMap<String> {
    let mut m = NameMap::new();
    for (k, v) in pairs {
        m.insert(k.to_string(), v.to_string());
    }
    m
}

fn text(negative: bool, magnitude: u128, flags: &str, pairs: &[(&str, &str)]) -> String {
    let flags: Vec<char> = flags.chars().collect();
    int_to_str(negative, magnitude, &flags, &options(pairs)).unwrap()
}

#[test]
fn basic() {
    let i = 10;
    let mut table: NameMap<&dyn Fmt> = NameMap::new();
    table.insert("i".to_string(), &i);
    let s = table.format("{i}").expect("Failed to format");
    assert_eq!(s.as_str(), "10");
}

#[test]
fn different_bases() {
    let i = 11;
    let mut table: NameMap<&dyn Fmt> = NameMap::new();
    table.insert("i".to_string(), &i);
    let s = table.format("{i:b}, {i:o}, {i:x}").expect("Failed to format");
    assert_eq!(s.as_str(), "1011, 13, b");
}

#[test]
fn base_prefixes() {
    let i = 1;
    let mut table: NameMap<&dyn Fmt> = NameMap::new();
    table.insert("i".to_string(), &i);
    let s = table.format("{i:bp}, {i:op}, {i:xp}").expect("Failed to format");
    assert_eq!(s.as_str(), "0b1, 0o1, 0x1");
}

#[test]
fn base_prefixes_for_eleven() {
    let i = 11;
    let mut table: NameMap<&dyn Fmt> = NameMap::new();
    table.insert("i".to_string(), &i);
    assert_eq!(table.format("{i:bp}, {i:op}, {i:xp}").unwrap(), "0b1011, 0o13, 0xb");
    assert_eq!(table.format("{i:p}").unwrap(), "11");
}

#[test]
fn bases_for_negative_numbers() {
    let i = -11;
    let mut table: NameMap<&dyn Fmt> = NameMap::new();
    table.insert("i".to_string(), &i);
    let s = table.format("{i:b}, {i:o}, {i:x}").expect("Failed to format");
    assert_eq!(s.as_str(), "-1011, -13, -b");
}

#[test]
fn sign_stands_before_the_prefix() {
    let i = -10;
    let j = 10;
    let mut table: NameMap<&dyn Fmt> = NameMap::new();
    table.insert("i".to_string(), &i);
    table.insert("j".to_string(), &j);
    assert_eq!(table.format("{i:xp}, {j:xp+}, {j:+}, {i:+}").unwrap(), "-0xa, +0xa, +10, -10");
}

#[test]
fn rounding() {
    let i = 1235;
    let mut table: NameMap<&dyn Fmt> = NameMap::new();
    table.insert("i".to_string(), &i);
    let s = table.format("{i::prec=-1}, {i::prec=-2}").expect("Failed to format");
    assert_eq!(s.as_str(), "1240, 1200");
}

#[test]
fn rounding_for_negatives() {
    let i = -1235;
    let mut table: NameMap<&dyn Fmt> = NameMap::new();
    table.insert("i".to_string(), &i);
    let s = table.format("{i::prec=-1}, {i::prec=-2}").expect("Failed to format");
    assert_eq!(s.as_str(), "-1240, -1200");
}

#[test]
fn rounding_in_different_bases() {
    let o = 0o124;
    let b = 0b1101;
    let x = 0x1a2;
    let mut table: NameMap<&dyn Fmt> = NameMap::new();
    table.insert("o".to_string(), &o);
    table.insert("b".to_string(), &b);
    table.insert("x".to_string(), &x);
    let s1 = table.format("{o:op:prec=-1}, {o:op:prec=-2}").expect("Failed to parse 1");
    let s2 = table.format("{b:bp:prec=-1}, {b:bp:prec=-2}").expect("Failed to parse 2");
    let s3 = table.format("{x:xp:prec=-1}, {x:xp:prec=-2}").expect("Failed to parse 3");
    assert_eq!(s1.as_str(), "0o130, 0o100");
    assert_eq!(s2.as_str(), "0b1110, 0b1100");
    assert_eq!(s3.as_str(), "0x1a0, 0x200");
}

#[test]
fn rounding_directions() {
    assert_eq!(text(false, 1231, "", &[("prec", "-1"), ("round", "up")]), "1240");
    assert_eq!(text(false, 1239, "", &[("prec", "-1"), ("round", "down")]), "1230");
    assert_eq!(text(false, 1234, "", &[("prec", "-1"), ("round", "nearest")]), "1230");
    assert_eq!(text(false, 1235, "", &[("prec", "-1"), ("round", "nearest")]), "1240");
    assert_eq!(text(true, 1231, "", &[("prec", "-1"), ("round", "up")]), "-1230");
    assert_eq!(text(true, 1231, "", &[("prec", "-1"), ("round", "down")]), "-1240");
    assert_eq!(text(false, 1230, "", &[("prec", "-1"), ("round", "up")]), "1230");
    assert_eq!(text(true, 1230, "", &[("prec", "-1"), ("round", "down")]), "-1230");
    assert_eq!(text(false, 1235, "", &[("round", "up")]), "1235");
}

#[test]
fn rounding_to_zero_and_beyond_the_number() {
    assert_eq!(text(false, 4, "", &[("prec", "-1")]), "0");
    assert_eq!(text(true, 4, "", &[("prec", "-1")]), "0");
    assert_eq!(text(false, 5, "", &[("prec", "-1")]), "10");
    assert_eq!(text(true, 5, "", &[("prec", "-1")]), "-10");
    assert_eq!(text(false, 7, "", &[("prec", "-3"), ("round", "up")]), "1000");
    assert_eq!(text(false, 7, "", &[("prec", "-3")]), "0");
    assert_eq!(text(false, 500, "", &[("prec", "-3")]), "1000");
    assert_eq!(text(false, 0, "", &[("prec", "-2"), ("round", "up")]), "0");
}

#[test]
fn rounding_at_the_limits_of_the_machine() {
    let max = u128::MAX;
    assert_eq!(text(false, max, "", &[]), "340282366920938463463374607431768211455");
    assert_eq!(text(false, max, "", &[("prec", "-1")]), "340282366920938463463374607431768211460");
    assert_eq!(text(false, max, "x", &[("prec", "-32")]), format!("1{}", "0".repeat(32)));
    assert_eq!(text(false, max, "b", &[("prec", "-128")]), format!("1{}", "0".repeat(128)));
    assert_eq!(text(false, (1u128 << 127) - 1, "b", &[("prec", "-128")]), "0");
    assert_eq!(text(false, 1u128 << 127, "xp", &[("prec", "-32")]), format!("0x1{}", "0".repeat(32)));
    assert_eq!(text(false, max, "", &[("prec", "-38")]), format!("3{}", "0".repeat(38)));
    assert_eq!(text(false, max, "", &[("prec", "-39")]), "0");
    assert_eq!(text(false, max, "", &[("prec", "-39"), ("round", "up")]), format!("1{}", "0".repeat(39)));
    assert_eq!(text(false, 1, "", &[("prec", "-50"), ("round", "up")]), format!("1{}", "0".repeat(50)));
    assert_eq!(text(false, max, "o", &[("prec", "-43")]), "0");
    assert_eq!(text(false, max, "o", &[("prec", "-42")]), format!("4{}", "0".repeat(42)));
}

#[test]
fn non_negative_precision_changes_nothing() {
    assert_eq!(text(false, 1235, "", &[("prec", "0")]), "1235");
    assert_eq!(text(false, 1235, "", &[("prec", "3")]), "1235");
    assert_eq!(text(false, 1235, "", &[("prec", "+3")]), "1235");
}

#[test]
fn bad_numeric_options() {
    let flags: Vec<char> = vec![];
    for bad in ["", "x", "1.5", "--1", "-", "+", "99999999999", "-2147483649", "1 "] {
        assert_eq!(
            int_to_str(false, 1, &flags, &options(&[("prec", bad)])),
            Err(SingleFmtError::InvalidOptionValue("prec".to_string(), bad.to_string()))
        );
    }
    for bad in ["", "Up", "nearest ", "away"] {
        assert_eq!(
            int_to_str(false, 1, &flags, &options(&[("round", bad)])),
            Err(SingleFmtError::InvalidOptionValue("round".to_string(), bad.to_string()))
        );
    }
    assert_eq!(
        int_to_str(false, 1, &flags, &options(&[("round", "bad"), ("prec", "bad")])),
        Err(SingleFmtError::InvalidOptionValue("prec".to_string(), "bad".to_string()))
    );
    assert_eq!(int_to_str(false, 5, &flags, &options(&[("prec", "-2147483648"), ("round", "down")])).unwrap(), "0");
    let i = 5;
    let mut table: NameMap<&dyn Fmt> = NameMap::new();
    table.insert("i".to_string(), &i);
    assert_eq!(
        table.format("{i::prec=two}"),
        Err(FormattingError::InvalidOptionValue("prec".to_string(), "two".to_string()))
    );
    assert_eq!(
        table.format("{i::round=sideways}"),
        Err(FormattingError::InvalidOptionValue("round".to_string(), "sideways".to_string()))
    );
}

#[test]
fn base_flags_take_precedence_in_order() {
    assert_eq!(text(false, 11, "xob", &[]), "1011");
    assert_eq!(text(false, 11, "xo", &[]), "13");
    assert_eq!(text(false, 11, "xop", &[]), "0o13");
    assert_eq!(text(false, 255, "x", &[]), "ff");
    assert_eq!(text(false, 0, "xp", &[]), "0x0");
}

#[test]
fn every_integer_type() {
    let a: i8 = i8::MIN;
    let b: i16 = i16::MIN;
    let c: i32 = i32::MIN;
    let d: i64 = i64::MIN;
    let e: i128 = i128::MIN;
    let f: isize = -7;
    let g: u8 = u8::MAX;
    let h: u16 = u16::MAX;
    let i: u32 = u32::MAX;
    let j: u64 = u64::MAX;
    let k: u128 = u128::MAX;
    let l: usize = 7;
    let table: Vec<&dyn Fmt> = vec![&a, &b, &c, &d, &e, &f, &g, &h, &i, &j, &k, &l];
    assert_eq!(table.format("{0} {1} {2} {3}").unwrap(), "-128 -32768 -2147483648 -9223372036854775808");
    assert_eq!(table.format("{4}").unwrap(), "-170141183460469231731687303715884105728");
    assert_eq!(table.format("{5} {6} {7} {8} {9}").unwrap(), "-7 255 65535 4294967295 18446744073709551615");
    assert_eq!(table.format("{10} {11}").unwrap(), "340282366920938463463374607431768211455 7");
    assert_eq!(table.format("{0:x} {6:+x} {11:+} {5:+}").unwrap(), "-80 +ff +7 -7");
    assert_eq!(table.format("{0::prec=-1} {6::prec=-1}").unwrap(), "-130 260");
    assert_eq!(table.format("{6::width=r5}|{5::width=l4}|").unwrap(), "  255|-7  |");
    for n in 0..12 {
        assert_eq!(
            table.format(&format!("{{{}.x}}", n)),
            Err(FormattingError::UnknownFmt(format!("{}.x", n)))
        );
    }
}
