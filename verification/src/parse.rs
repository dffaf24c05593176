//! The parser: from a format string to its pieces.

use vstd::prelude::*;
use crate::error::{ParseError, ParseErrorModel};
use crate::grammar::{
    key_index, lemma_scan_bounds, name_ok, name_segments, parse_args, parse_options, parse_pieces,
    parse_placeholder, parse_spec, scan, stops, unescape, upsert, Stop,
};
use crate::laws::lemma_parse_shape;
use crate::piece::{
    all_well_formed, args_view, lemma_pieces_view_push, lemma_placeholder_view, options_view,
    pieces_view, Piece, PieceModel,
};
use crate::text::{from_chars, from_chars_range, strings_view, to_chars};

verus! {

/// The result of a parse, with its pieces or its error as models.
pub open spec fn parsed_view(r: Result<Vec<Piece>, ParseError>) -> Result<Seq<PieceModel>, ParseErrorModel> {
    match r {
        Ok(v) => Ok(pieces_view(v@)),
        Err(e) => Err(e@),
    }
}

fn is_stop(k: Stop, c: char) -> (r: bool)
    ensures
        r == stops(k, c),
{
    match k {
        Stop::Literal => c == '{' || c == '}' || c == ':',
        Stop::Close => c == '}',
        Stop::Name => c == '(' || c == ':',
        Stop::Argument => c == ',' || c == ')',
        Stop::Field => c == ':',
        Stop::Key => c == '=',
    }
}

/// Finds where the part of kind `k` that starts at `start` ends.
fn scan_to(s: &[char], start: usize, end: usize, k: Stop) -> (r: usize)
    requires
        start <= end <= s@.len(),
    ensures
        r == scan(s@, start as int, end as int, 0, k),
        start <= r <= end,
{
    let mut i: usize = start;
    let mut depth: usize = 0;
    while i < end
        invariant
            start <= i <= end <= s@.len(),
            depth <= i - start,
            scan(s@, i as int, end as int, depth as nat, k) == scan(s@, start as int, end as int, 0, k),
        decreases end - i,
    {
        let c = s[i];
        if c == '\\' {
            if end - i >= 2 {
                i += 2;
            } else {
                i = end;
            }
        } else if depth == 0 && is_stop(k, c) {
            return i;
        } else if c == '{' {
            depth += 1;
            i += 1;
        } else if c == '}' && depth > 0 {
            depth -= 1;
            i += 1;
        } else {
            i += 1;
        }
    }
    i
}

/// Removes the escape characters from `s[start..end)`.
fn unescape_range(s: &[char], start: usize, end: usize) -> (r: Vec<char>)
    requires
        start <= end <= s@.len(),
    ensures
        r@ == unescape(s@, start as int, end as int),
{
    let mut out: Vec<char> = Vec::new();
    let mut i: usize = start;
    while i < end
        invariant
            start <= i <= end <= s@.len(),
            out@ + unescape(s@, i as int, end as int) == unescape(s@, start as int, end as int),
        decreases end - i,
    {
        let ghost before = out@;
        if s[i] == '\\' {
            if end - i >= 2 {
                out.push(s[i + 1]);
                assert(out@ + unescape(s@, i + 2, end as int) =~= before + (seq![s@[i + 1]] + unescape(
                    s@,
                    i + 2,
                    end as int,
                )));
                i += 2;
            } else {
                i = end;
            }
        } else {
            out.push(s[i]);
            assert(out@ + unescape(s@, i + 1, end as int) =~= before + (seq![s@[i as int]] + unescape(
                s@,
                i + 1,
                end as int,
            )));
            i += 1;
        }
    }
    assert(out@ + Seq::<char>::empty() =~= out@);
    out
}

/// Splits the dotted name `s[b..n)` into its segments, if it is valid.
fn split_name(s: &[char], b: usize, n: usize) -> (r: Option<Vec<String>>)
    requires
        b <= n <= s@.len(),
    ensures
        r is Some == name_ok(s@, b as int, n as int),
        r matches Some(v) ==> strings_view(v@) == name_segments(s@, b as int, b as int, n as int),
{
    let mut segments: Vec<String> = Vec::new();
    let mut from: usize = b;
    let mut i: usize = b;
    let mut escaped = false;
    let mut hollow = false;
    let ghost mut escape_at: int = 0;
    let ghost mut hollow_at: int = 0;
    while i < n
        invariant
            b <= from <= i <= n <= s@.len(),
            strings_view(segments@) + name_segments(s@, from as int, i as int, n as int) == name_segments(
                s@,
                b as int,
                b as int,
                n as int,
            ),
            escaped ==> b <= escape_at < i && s@[escape_at] == '\\',
            !escaped ==> forall|j: int| b <= j < i ==> s@[j] != '\\',
            hollow ==> 0 <= hollow_at < segments@.len() && segments@[hollow_at]@.len() == 0,
            !hollow ==> forall|k: int| 0 <= k < segments@.len() ==> (#[trigger] segments@[k])@.len() > 0,
        decreases n - i,
    {
        let c = s[i];
        if c == '\\' {
            escaped = true;
            proof {
                escape_at = i as int;
            }
        }
        if c == '.' {
            let segment = from_chars_range(s, from, i);
            let ghost before = segments@;
            segments.push(segment);
            if i == from {
                hollow = true;
                proof {
                    hollow_at = before.len() as int;
                }
            }
            proof {
                assert(strings_view(segments@) =~= strings_view(before).push(segment@));
                assert(strings_view(segments@) + name_segments(s@, i + 1, i + 1, n as int) =~= strings_view(
                    before,
                ) + (seq![s@.subrange(from as int, i as int)] + name_segments(s@, i + 1, i + 1, n as int)));
            }
            from = i + 1;
        }
        i += 1;
    }
    let segment = from_chars_range(s, from, n);
    let ghost before = segments@;
    segments.push(segment);
    if n == from {
        hollow = true;
        proof {
            hollow_at = before.len() as int;
        }
    }
    proof {
        let all = name_segments(s@, b as int, b as int, n as int);
        assert(strings_view(segments@) =~= strings_view(before).push(segment@));
        assert(strings_view(segments@) =~= all);
        assert forall|k: int| 0 <= k < all.len() implies #[trigger] all[k] == segments@[k]@ by {
            assert(all[k] == strings_view(segments@)[k]);
        }
        if hollow {
            assert(all[hollow_at].len() == 0);
        }
    }
    if escaped || hollow {
        None
    } else {
        Some(segments)
    }
}

/// Sets the option `key` to `value`: a name that is there keeps its place.
fn set_option(opts: &mut Vec<(String, Vec<Piece>)>, key: String, value: Vec<Piece>)
    ensures
        options_view(final(opts)@) == upsert(options_view(old(opts)@), key@, pieces_view(value@)),
{
    let ghost models = options_view(opts@);
    let mut j: usize = 0;
    while j < opts.len()
        invariant
            j <= opts@.len(),
            opts@ == old(opts)@,
            models == options_view(opts@),
            key_index(models, key@, j as int) == key_index(models, key@, 0),
        decreases opts.len() - j,
    {
        if opts[j].0 == key {
            opts.set(j, (key, value));
            assert(options_view(opts@) =~= models.update(j as int, (key@, pieces_view(value@))));
            return ;
        }
        j += 1;
    }
    opts.push((key, value));
    assert(options_view(opts@) =~= models.push((key@, pieces_view(value@))));
}

/// Parses the arguments of the list that opened at `open`, from `a` on.
fn parse_args_from(s: &[char], open: usize, a: usize, close: usize) -> (r: Result<
    (Vec<Vec<Piece>>, usize),
    ParseError,
>)
    requires
        open < a <= close <= s@.len(),
    ensures
        match parse_args(s@, open as int, a as int, close as int, Seq::empty()) {
            Ok((models, f)) => r matches Ok((v, pos)) && args_view(v@) == models && pos == f && a < pos
                <= close,
            Err(e) => r matches Err(x) && x@ == e,
        },
    decreases close - a, 0nat,
{
    let mut args: Vec<Vec<Piece>> = Vec::new();
    let mut at: usize = a;
    assert(args_view(args@) =~= Seq::empty());
    loop
        invariant
            open < a <= at <= close <= s@.len(),
            parse_args(s@, open as int, at as int, close as int, args_view(args@)) == parse_args(
                s@,
                open as int,
                a as int,
                close as int,
                Seq::empty(),
            ),
        decreases close - at,
    {
        let e = scan_to(s, at, close, Stop::Argument);
        if e >= close {
            return Err(ParseError::UnterminatedArgumentList(from_chars_range(s, open, close)));
        }
        let arg = match parse_range(s, at, e) {
            Err(x) => {
                return Err(x);
            },
            Ok(arg) => arg,
        };
        let ghost before = args@;
        args.push(arg);
        assert(args_view(args@) =~= args_view(before).push(pieces_view(arg@)));
        if s[e] == ')' {
            let f = scan_to(s, e + 1, close, Stop::Field);
            return Ok((args, f));
        }
        at = e + 1;
    }
}

/// Parses the options that stand in `s[g..close)`.
fn parse_options_from(s: &[char], g: usize, close: usize) -> (r: Result<Vec<(String, Vec<Piece>)>, ParseError>)
    requires
        g <= close <= s@.len(),
    ensures
        match parse_options(s@, g as int, close as int, Seq::empty()) {
            Ok(models) => r matches Ok(v) && options_view(v@) == models,
            Err(e) => r matches Err(x) && x@ == e,
        },
    decreases close - g, 0nat,
{
    let mut opts: Vec<(String, Vec<Piece>)> = Vec::new();
    let mut at: usize = g;
    assert(options_view(opts@) =~= Seq::empty());
    while at < close
        invariant
            g <= at <= close <= s@.len(),
            parse_options(s@, at as int, close as int, options_view(opts@)) == parse_options(
                s@,
                g as int,
                close as int,
                Seq::empty(),
            ),
        decreases close - at,
    {
        let e = scan_to(s, at + 1, close, Stop::Field);
        if e > at + 1 {
            let k = scan_to(s, at + 1, e, Stop::Key);
            let key = unescape_range(s, at + 1, k);
            let v: usize = if k < e {
                k + 1
            } else {
                e
            };
            let value = match parse_range(s, v, e) {
                Err(x) => {
                    return Err(x);
                },
                Ok(value) => value,
            };
            set_option(&mut opts, from_chars(key.as_slice()), value);
        }
        at = e;
    }
    Ok(opts)
}

/// Parses the placeholder that opens at `s[i]`; with it, the position of
/// its closing brace.
fn parse_placeholder_at(s: &[char], i: usize, end: usize) -> (r: Result<(Piece, usize), ParseError>)
    requires
        i < end <= s@.len(),
    ensures
        match parse_placeholder(s@, i as int, end as int) {
            Ok(model) => r matches Ok((p, close)) && p@ == model && close == scan(
                s@,
                i + 1,
                end as int,
                0,
                Stop::Close,
            ) && i < close < end,
            Err(e) => r matches Err(x) && x@ == e,
        },
    decreases end - i, 1nat,
{
    let b: usize = i + 1;
    let close = scan_to(s, b, end, Stop::Close);
    let n = scan_to(s, b, close, Stop::Name);
    if n >= end {
        return Err(ParseError::UnterminatedPlaceholder(from_chars_range(s, i, end)));
    }
    let name = match split_name(s, b, n) {
        None => {
            return Err(ParseError::EmptyNameSegment(from_chars_range(s, b, n)));
        },
        Some(name) => name,
    };
    let mut args: Vec<Vec<Piece>> = Vec::new();
    let mut f: usize = n;
    assert(args_view(args@) =~= Seq::empty());
    if n < close && s[n] == '(' {
        if n + 1 < close && s[n + 1] == ')' {
            f = scan_to(s, n + 2, close, Stop::Field);
        } else {
            match parse_args_from(s, n, n + 1, close) {
                Err(e) => {
                    return Err(e);
                },
                Ok((parsed, pos)) => {
                    args = parsed;
                    f = pos;
                },
            }
        }
    }
    if close >= end {
        return Err(ParseError::UnterminatedPlaceholder(from_chars_range(s, i, end)));
    }
    let mut flags: Vec<char> = Vec::new();
    let mut g: usize = close;
    if f < close {
        g = scan_to(s, f + 1, close, Stop::Field);
        flags = unescape_range(s, f + 1, g);
    }
    let options = match parse_options_from(s, g, close) {
        Err(e) => {
            return Err(e);
        },
        Ok(options) => options,
    };
    let piece = Piece::Placeholder(name, args, flags, options);
    proof {
        lemma_placeholder_view(piece);
    }
    Ok((piece, close))
}

/// Parses the format string `s[start..end)`.
fn parse_range(s: &[char], start: usize, end: usize) -> (r: Result<Vec<Piece>, ParseError>)
    requires
        start <= end <= s@.len(),
    ensures
        parsed_view(r) == parse_pieces(s@, start as int, end as int, Seq::empty()),
    decreases end - start, 2nat,
{
    let mut pieces: Vec<Piece> = Vec::new();
    let mut i: usize = start;
    assert(pieces_view(pieces@) =~= Seq::empty());
    while i < end
        invariant
            start <= i <= end <= s@.len(),
            parse_pieces(s@, i as int, end as int, pieces_view(pieces@)) == parse_pieces(
                s@,
                start as int,
                end as int,
                Seq::empty(),
            ),
        decreases end - i,
    {
        let c = s[i];
        let ghost before = pieces@;
        if c == '{' {
            match parse_placeholder_at(s, i, end) {
                Err(e) => {
                    return Err(e);
                },
                Ok((piece, close)) => {
                    pieces.push(piece);
                    proof {
                        lemma_pieces_view_push(before, piece);
                    }
                    i = close + 1;
                },
            }
        } else if c == ':' || c == '}' {
            i += 1;
        } else {
            let j = scan_to(s, i, end, Stop::Literal);
            let text = unescape_range(s, i, j);
            let piece = Piece::Literal(from_chars(text.as_slice()));
            pieces.push(piece);
            proof {
                lemma_pieces_view_push(before, piece);
                lemma_scan_bounds(s@, i + 1, end as int, 0, Stop::Literal);
                if i + 2 <= end {
                    lemma_scan_bounds(s@, i + 2, end as int, 0, Stop::Literal);
                }
            }
            i = j;
        }
    }
    Ok(pieces)
}

/// Parses a format string into its pieces.
///
/// The result is exactly what the grammar gives for `input`: the pieces in
/// order, or the first error from the left.
pub fn parse(input: &str) -> (r: Result<Vec<Piece>, ParseError>)
    ensures
        parsed_view(r) == parse_spec(input@),
        r matches Ok(pieces) ==> all_well_formed(pieces_view(pieces@)),
{
    let chars = to_chars(input);
    proof {
        if parse_spec(input@) is Ok {
            lemma_parse_shape(input@);
        }
    }
    parse_range(chars.as_slice(), 0, chars.len())
}

} // verus!
