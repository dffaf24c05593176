use pfmt::{parse, ParseError, Piece};

fn lit(s: &str) -> Piece {
    Piece::Literal(s.to_string())
}

fn name(segments: &[&str]) -> Vec<String> {
    segments.iter().map(|s| s.to_string()).collect()
}

fn bare(segments: &[&str]) -> Piece {
    Piece::Placeholder(name(segments), vec![], vec![], vec![])
}

#[test]
fn literals_and_placeholders_in_order() {
    assert_eq!(parse("").unwrap(), vec![]);
    assert_eq!(parse("abc").unwrap(), vec![lit("abc")]);
    assert_eq!(parse("{a}").unwrap(), vec![bare(&["a"])]);
    assert_eq!(
        parse("i = {i}, j = {j}").unwrap(),
        vec![lit("i = "), bare(&["i"]), lit(", j = "), bare(&["j"])]
    );
    assert_eq!(parse("{a}{b}").unwrap(), vec![bare(&["a"]), bare(&["b"])]);
}

#[test]
fn escapes_in_literals() {
    assert_eq!(parse("a\\:b").unwrap(), vec![lit("a:b")]);
    assert_eq!(parse("\\{x\\}").unwrap(), vec![lit("{x}")]);
    assert_eq!(parse("\\\\").unwrap(), vec![lit("\\")]);
    assert_eq!(parse("a\\").unwrap(), vec![lit("a")]);
    assert_eq!(parse("\\q").unwrap(), vec![lit("q")]);
}

#[test]
fn unescaped_separators_split_literals() {
    assert_eq!(parse("a:b").unwrap(), vec![lit("a"), lit("b")]);
    assert_eq!(parse("a}b").unwrap(), vec![lit("a"), lit("b")]);
    assert_eq!(parse("::").unwrap(), vec![]);
}

#[test]
fn dotted_names() {
    assert_eq!(parse("{a.b.c}").unwrap(), vec![bare(&["a", "b", "c"])]);
    assert_eq!(parse("{10}").unwrap(), vec![bare(&["10"])]);
    assert_eq!(parse("{-3}").unwrap(), vec![bare(&["-3"])]);
}

#[test]
fn empty_name_segments_are_errors() {
    assert_eq!(parse("{}"), Err(ParseError::EmptyNameSegment("".to_string())));
    assert_eq!(parse("{.a}"), Err(ParseError::EmptyNameSegment(".a".to_string())));
    assert_eq!(parse("{a.}"), Err(ParseError::EmptyNameSegment("a.".to_string())));
    assert_eq!(parse("{a..b}"), Err(ParseError::EmptyNameSegment("a..b".to_string())));
    assert_eq!(parse("{:f}"), Err(ParseError::EmptyNameSegment("".to_string())));
    assert_eq!(parse("{(x)}"), Err(ParseError::EmptyNameSegment("".to_string())));
    assert_eq!(parse("x{a}{.}"), Err(ParseError::EmptyNameSegment(".".to_string())));
}

#[test]
fn escapes_in_names_are_refused() {
    assert_eq!(parse("{a\\.b}"), Err(ParseError::EmptyNameSegment("a\\.b".to_string())));
    assert_eq!(parse("{a\\:b}"), Err(ParseError::EmptyNameSegment("a\\:b".to_string())));
    assert_eq!(parse("{\\}}"), Err(ParseError::EmptyNameSegment("\\}".to_string())));
}

#[test]
fn flags_are_single_characters() {
    assert_eq!(
        parse("{a:xyz}").unwrap(),
        vec![Piece::Placeholder(name(&["a"]), vec![], vec!['x', 'y', 'z'], vec![])]
    );
    assert_eq!(parse("{a:}").unwrap(), vec![bare(&["a"])]);
    assert_eq!(parse("{a::}").unwrap(), vec![bare(&["a"])]);
    assert_eq!(
        parse("{a:p:}").unwrap(),
        vec![Piece::Placeholder(name(&["a"]), vec![], vec!['p'], vec![])]
    );
    assert_eq!(
        parse("{a:\\:+}").unwrap(),
        vec![Piece::Placeholder(name(&["a"]), vec![], vec![':', '+'], vec![])]
    );
}

#[test]
fn options_are_key_value_pairs() {
    assert_eq!(
        parse("{a::k=v}").unwrap(),
        vec![Piece::Placeholder(name(&["a"]), vec![], vec![], vec![("k".to_string(), vec![lit("v")])])]
    );
    assert_eq!(
        parse("{a:f:k=v:l=w:}").unwrap(),
        vec![Piece::Placeholder(
            name(&["a"]),
            vec![],
            vec!['f'],
            vec![("k".to_string(), vec![lit("v")]), ("l".to_string(), vec![lit("w")])]
        )]
    );
    assert_eq!(
        parse("{a::k=}").unwrap(),
        vec![Piece::Placeholder(name(&["a"]), vec![], vec![], vec![("k".to_string(), vec![])])]
    );
    assert_eq!(
        parse("{a::k}").unwrap(),
        vec![Piece::Placeholder(name(&["a"]), vec![], vec![], vec![("k".to_string(), vec![])])]
    );
    assert_eq!(
        parse("{a::k=x=y}").unwrap(),
        vec![Piece::Placeholder(name(&["a"]), vec![], vec![], vec![("k".to_string(), vec![lit("x=y")])])]
    );
    assert_eq!(
        parse("{a::k\\=x=y\\:z}").unwrap(),
        vec![Piece::Placeholder(name(&["a"]), vec![], vec![], vec![("k=x".to_string(), vec![lit("y:z")])])]
    );
}

#[test]
fn a_repeated_option_keeps_its_place_and_takes_the_last_value() {
    assert_eq!(
        parse("{a::k=1:l=2:k=3}").unwrap(),
        vec![Piece::Placeholder(
            name(&["a"]),
            vec![],
            vec![],
            vec![("k".to_string(), vec![lit("3")]), ("l".to_string(), vec![lit("2")])]
        )]
    );
}

#[test]
fn option_values_may_hold_placeholders() {
    assert_eq!(
        parse("{a::width=l{w}:k=<{b.c:x}>}").unwrap(),
        vec![Piece::Placeholder(
            name(&["a"]),
            vec![],
            vec![],
            vec![
                ("width".to_string(), vec![lit("l"), bare(&["w"])]),
                (
                    "k".to_string(),
                    vec![
                        lit("<"),
                        Piece::Placeholder(name(&["b", "c"]), vec![], vec!['x'], vec![]),
                        lit(">")
                    ]
                ),
            ]
        )]
    );
}

#[test]
fn arguments_are_format_strings() {
    assert_eq!(
        parse("{f(a,{b},c{d}e)}").unwrap(),
        vec![Piece::Placeholder(
            name(&["f"]),
            vec![vec![lit("a")], vec![bare(&["b"])], vec![lit("c"), bare(&["d"]), lit("e")]],
            vec![],
            vec![]
        )]
    );
    assert_eq!(parse("{f()}").unwrap(), vec![bare(&["f"])]);
    assert_eq!(
        parse("{f(,)}").unwrap(),
        vec![Piece::Placeholder(name(&["f"]), vec![vec![], vec![]], vec![], vec![])]
    );
    assert_eq!(
        parse("{f(a\\,b\\))}").unwrap(),
        vec![Piece::Placeholder(name(&["f"]), vec![vec![lit("a,b)")]], vec![], vec![])]
    );
    assert_eq!(
        parse("{f({g(x,y)},z):q}").unwrap(),
        vec![Piece::Placeholder(
            name(&["f"]),
            vec![
                vec![Piece::Placeholder(name(&["g"]), vec![vec![lit("x")], vec![lit("y")]], vec![], vec![])],
                vec![lit("z")]
            ],
            vec!['q'],
            vec![]
        )]
    );
    assert_eq!(
        parse("{f(a)junk:q}").unwrap(),
        vec![Piece::Placeholder(name(&["f"]), vec![vec![lit("a")]], vec!['q'], vec![])]
    );
}

#[test]
fn unterminated_argument_lists() {
    assert_eq!(parse("{f(a}"), Err(ParseError::UnterminatedArgumentList("(a".to_string())));
    assert_eq!(parse("{f(a"), Err(ParseError::UnterminatedArgumentList("(a".to_string())));
    assert_eq!(parse("{f(a,b} tail"), Err(ParseError::UnterminatedArgumentList("(a,b".to_string())));
    assert_eq!(parse("{f(}"), Err(ParseError::UnterminatedArgumentList("(".to_string())));
    assert_eq!(parse("{f({x)}"), Err(ParseError::UnterminatedArgumentList("({x)}".to_string())));
}

#[test]
fn unterminated_placeholders() {
    assert_eq!(parse("{"), Err(ParseError::UnterminatedPlaceholder("{".to_string())));
    assert_eq!(parse("ab{cd"), Err(ParseError::UnterminatedPlaceholder("{cd".to_string())));
    assert_eq!(parse("{a:f"), Err(ParseError::UnterminatedPlaceholder("{a:f".to_string())));
    assert_eq!(parse("{a::k={b}"), Err(ParseError::UnterminatedPlaceholder("{a::k={b}".to_string())));
    assert_eq!(parse("{f(a)"), Err(ParseError::UnterminatedPlaceholder("{f(a)".to_string())));
    assert_eq!(parse("{a\\}"), Err(ParseError::UnterminatedPlaceholder("{a\\}".to_string())));
    assert_eq!(parse("{a::k={b"), Err(ParseError::UnterminatedPlaceholder("{a::k={b".to_string())));
}

#[test]
fn the_first_error_from_the_left_wins() {
    assert_eq!(parse("{.}{"), Err(ParseError::EmptyNameSegment(".".to_string())));
    assert_eq!(parse("{a({.})}{"), Err(ParseError::EmptyNameSegment(".".to_string())));
    assert_eq!(parse("{a::k={.}:l={..}}"), Err(ParseError::EmptyNameSegment(".".to_string())));
    assert_eq!(parse("{a({b(}"), Err(ParseError::UnterminatedArgumentList("({b(}".to_string())));
}

#[test]
fn non_ascii_text() {
    assert_eq!(parse("é{ü}ß").unwrap(), vec![lit("é"), bare(&["ü"]), lit("ß")]);
}
