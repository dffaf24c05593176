//! What holds of every format string and every table.

use vstd::prelude::*;
use crate::error::{lift_leaf, FormattingErrorModel, SingleFmtErrorModel};
use crate::fmt::{Fmt, Request};
use crate::grammar::{
    key_index, lemma_scan_bounds, name_ok, name_segments, parse_args, parse_options, parse_pieces,
    parse_placeholder, parse_spec, scan, stops, unescape, upsert, OptionModels, Stop,
};
use crate::impls::render_leaf;
use crate::piece::{all_well_formed, distinct_keys, well_formed, PieceModel};
use crate::table::{format_spec, render_piece, render_pieces, FormatTable};
use crate::util::{dotted, render_member};

verus! {

/// Whether every `{`, `}` and `:` of `s` is escaped, so that `s` holds no
/// placeholder and no separator.
pub open spec fn all_escaped(s: Seq<char>) -> bool {
    scan(s, 0, s.len() as int, 0, Stop::Literal) == s.len()
}

/// Text without an escape character is its own unescaped form.
pub proof fn lemma_unescape_plain(s: Seq<char>, i: int, end: int)
    requires
        0 <= i <= end <= s.len(),
        forall|j: int| i <= j < end ==> s[j] != '\\',
    ensures
        unescape(s, i, end) == s.subrange(i, end),
    decreases end - i,
{
    if i < end {
        lemma_unescape_plain(s, i + 1, end);
        assert(seq![s[i]] + s.subrange(i + 1, end) =~= s.subrange(i, end));
    } else {
        assert(s.subrange(i, end) =~= Seq::<char>::empty());
    }
}

/// A format string in which every special character is escaped is one
/// literal: its unescaped text. The empty format string has no piece.
pub proof fn lemma_escaped_parse(s: Seq<char>)
    requires
        all_escaped(s),
    ensures
        parse_spec(s) == if s.len() == 0 {
            Ok::<Seq<PieceModel>, crate::error::ParseErrorModel>(Seq::empty())
        } else {
            Ok(seq![PieceModel::Literal(unescape(s, 0, s.len() as int))])
        },
{
    let end = s.len() as int;
    if end > 0 {
        let only = PieceModel::Literal(unescape(s, 0, end));
        assert(!stops(Stop::Literal, s[0]) || s[0] == '\\');
        assert(Seq::<PieceModel>::empty().push(only) =~= seq![only]);
        assert(parse_pieces(s, end, end, seq![only]) == Ok::<Seq<PieceModel>, crate::error::ParseErrorModel>(
            seq![only],
        ));
    }
}

/// Round trip: a format string in which every special character is escaped
/// renders, against any table, as its unescaped text.
pub proof fn lemma_escaped_format<T: FormatTable + ?Sized>(table: &T, s: Seq<char>)
    requires
        all_escaped(s),
    ensures
        format_spec(table, s) == Ok::<Seq<char>, FormattingErrorModel>(unescape(s, 0, s.len() as int)),
{
    lemma_escaped_parse(s);
    let end = s.len() as int;
    if end > 0 {
        let only = PieceModel::Literal(unescape(s, 0, end));
        let pieces = seq![only];
        assert(pieces.drop_last() =~= Seq::<PieceModel>::empty());
        assert(pieces.last() == only);
        assert(render_pieces(table, pieces.drop_last()) == Ok::<Seq<char>, FormattingErrorModel>(
            Seq::empty(),
        ));
        assert(Seq::<char>::empty() + unescape(s, 0, end) =~= unescape(s, 0, end));
        assert(render_piece(table, only) == Ok::<Seq<char>, FormattingErrorModel>(unescape(s, 0, end)));
        assert(render_pieces(table, pieces) == Ok::<Seq<char>, FormattingErrorModel>(unescape(s, 0, end)));
    } else {
        assert(render_pieces(table, Seq::<PieceModel>::empty()) == Ok::<Seq<char>, FormattingErrorModel>(
            Seq::empty(),
        ));
    }
}

/// Round trip without escapes: a format string that holds none of `{`,
/// `}`, `:` and `\` renders, against any table, as itself.
pub proof fn lemma_plain_format<T: FormatTable + ?Sized>(table: &T, s: Seq<char>)
    requires
        forall|j: int| 0 <= j < s.len() ==> s[j] != '{' && s[j] != '}' && s[j] != ':' && s[j] != '\\',
    ensures
        format_spec(table, s) == Ok::<Seq<char>, FormattingErrorModel>(s),
{
    lemma_plain_scan(s, 0);
    lemma_escaped_format(table, s);
    lemma_unescape_plain(s, 0, s.len() as int);
    assert(s.subrange(0, s.len() as int) =~= s);
}

proof fn lemma_plain_scan(s: Seq<char>, i: int)
    requires
        0 <= i <= s.len(),
        forall|j: int| 0 <= j < s.len() ==> s[j] != '{' && s[j] != '}' && s[j] != ':' && s[j] != '\\',
    ensures
        scan(s, i, s.len() as int, 0, Stop::Literal) == s.len(),
    decreases s.len() - i,
{
    if i < s.len() {
        lemma_plain_scan(s, i + 1);
    }
}

/// A name has at least one segment.
pub proof fn lemma_segments_exist(s: Seq<char>, from: int, i: int, end: int)
    ensures
        name_segments(s, from, i, end).len() > 0,
    decreases end - i,
{
    if i < end && s[i] != '.' {
        lemma_segments_exist(s, from, i + 1, end);
    }
}

/// The segments of a name, joined again, are the name as it was written.
pub proof fn lemma_dotted_segments(s: Seq<char>, from: int, i: int, end: int)
    requires
        0 <= from <= i <= end <= s.len(),
        forall|j: int| from <= j < i ==> s[j] != '.',
    ensures
        dotted(name_segments(s, from, i, end)) == s.subrange(from, end),
    decreases end - i,
{
    if i >= end {
        assert(name_segments(s, from, i, end) =~= seq![s.subrange(from, end)]);
    } else if s[i] == '.' {
        lemma_dotted_segments(s, i + 1, i + 1, end);
        lemma_segments_exist(s, i + 1, i + 1, end);
        lemma_dotted_prepend(s.subrange(from, i), name_segments(s, i + 1, i + 1, end));
        assert(s.subrange(from, i) + seq!['.'] + s.subrange(i + 1, end) =~= s.subrange(from, end));
    } else {
        lemma_dotted_segments(s, from, i + 1, end);
    }
}

/// Joining a name whose first segment is `first`.
pub proof fn lemma_dotted_prepend(first: Seq<char>, rest: Seq<Seq<char>>)
    requires
        rest.len() > 0,
    ensures
        dotted(seq![first] + rest) == first + seq!['.'] + dotted(rest),
    decreases rest.len(),
{
    let all = seq![first] + rest;
    if rest.len() == 1 {
        assert(all.drop_last() =~= seq![first]);
        assert(all.last() == rest[0]);
        assert(dotted(seq![first]) == first);
    } else {
        lemma_dotted_prepend(first, rest.drop_last());
        assert(all.drop_last() =~= seq![first] + rest.drop_last());
        assert(all.last() == rest.last());
        assert(first + seq!['.'] + dotted(rest.drop_last()) + seq!['.'] + rest.last() =~= first + seq!['.'] + (
        dotted(rest.drop_last()) + seq!['.'] + rest.last()));
    }
}

/// Over characters that neither escape nor open or close a brace, `scan`
/// stops at the first character that ends the part.
pub proof fn lemma_scan_first_stop(s: Seq<char>, i: int, p: int, end: int, k: Stop)
    requires
        0 <= i <= p <= end <= s.len(),
        forall|j: int|
            i <= j < p ==> s[j] != '\\' && s[j] != '{' && s[j] != '}' && !stops(k, #[trigger] s[j]),
        p < end ==> stops(k, s[p]) && s[p] != '\\',
    ensures
        scan(s, i, end, 0, k) == if p < end {
            p
        } else {
            end
        },
    decreases p - i,
{
    if i < p {
        lemma_scan_first_stop(s, i + 1, p, end, k);
    }
}

/// A placeholder that is a name and nothing else, against a table that
/// does not resolve the root of the name: formatting fails with the name
/// exactly as it was written.
pub proof fn lemma_bare_unknown<T: FormatTable + ?Sized>(table: &T, s: Seq<char>)
    requires
        s.len() >= 2,
        s[0] == '{',
        s[s.len() - 1] == '}',
        forall|j: int|
            1 <= j < s.len() - 1 ==> s[j] != '\\' && s[j] != '{' && s[j] != '}' && s[j] != ':' && (
            #[trigger] s[j]) != '(',
        name_ok(s, 1, s.len() - 1),
        !table.resolves(name_segments(s, 1, 1, s.len() - 1)[0]),
    ensures
        format_spec(table, s) == Err::<Seq<char>, FormattingErrorModel>(
            FormattingErrorModel::UnknownFmt(s.subrange(1, s.len() - 1)),
        ),
{
    let end = s.len() as int;
    let close = end - 1;
    lemma_scan_first_stop(s, 1, close, end, Stop::Close);
    lemma_scan_first_stop(s, 1, close, close, Stop::Name);
    let name = name_segments(s, 1, 1, close);
    lemma_segments_exist(s, 1, 1, close);
    lemma_dotted_segments(s, 1, 1, close);
    let piece = PieceModel::Placeholder {
        name,
        args: Seq::empty(),
        flags: Seq::empty(),
        options: Seq::empty(),
    };
    assert(parse_options(s, close, close, Seq::empty()) == Ok::<OptionModels, crate::error::ParseErrorModel>(
        Seq::empty(),
    ));
    assert(parse_placeholder(s, 0, end) == Ok::<PieceModel, crate::error::ParseErrorModel>(piece));
    let pieces = Seq::<PieceModel>::empty().push(piece);
    assert(parse_pieces(s, end, end, pieces) == Ok::<Seq<PieceModel>, crate::error::ParseErrorModel>(pieces));
    assert(parse_spec(s) == Ok::<Seq<PieceModel>, crate::error::ParseErrorModel>(pieces));
    assert(pieces.drop_last() =~= Seq::<PieceModel>::empty());
    assert(pieces.last() == piece);
    assert(render_pieces(table, pieces.drop_last()) == Ok::<Seq<char>, FormattingErrorModel>(Seq::empty()));
    assert(render_piece(table, piece) == Err::<Seq<char>, FormattingErrorModel>(
        FormattingErrorModel::UnknownFmt(dotted(name)),
    ));
    assert(render_pieces(table, pieces) == render_piece(table, piece));
}

/// An unknown root name fails with the full dotted name, whatever the
/// arguments, flags and options are.
pub proof fn lemma_unknown_root<T: FormatTable + ?Sized>(
    table: &T,
    name: Seq<Seq<char>>,
    args: Seq<Seq<PieceModel>>,
    flags: Seq<char>,
    options: Seq<(Seq<char>, Seq<PieceModel>)>,
)
    requires
        name.len() > 0,
        !table.resolves(name[0]),
    ensures
        render_piece(table, PieceModel::Placeholder { name, args, flags, options }) == Err::<
            Seq<char>,
            FormattingErrorModel,
        >(FormattingErrorModel::UnknownFmt(dotted(name))),
{
}

/// A value without members that is asked for a member fails with the full
/// dotted name, and the aggregate error is that of an unknown `Fmt`.
pub proof fn lemma_leaf_member(text: Seq<char>, req: Request)
    requires
        req.name.len() > 0,
    ensures
        render_leaf(text, req) == Err::<Seq<char>, SingleFmtErrorModel>(
            SingleFmtErrorModel::UnknownSubfmt(dotted(req.full_name)),
        ),
        lift_leaf(SingleFmtErrorModel::UnknownSubfmt(dotted(req.full_name))) == FormattingErrorModel::UnknownFmt(
            dotted(req.full_name),
        ),
{
}

/// Members within members: where a value hands requests on to a member
/// that hands them on to a member of its own, the innermost member renders
/// the request with the full name unchanged and the remaining name
/// shortened by two segments.
pub proof fn lemma_forward_twice<A: Fmt + ?Sized, B: Fmt + ?Sized, C: Fmt + ?Sized>(
    outer: &A,
    middle: &B,
    inner: &C,
    req: Request,
)
    requires
        req.name.len() >= 2,
        forall|r: Request| #[trigger] outer.render(r) == render_member(Some(middle), r),
        forall|r: Request| #[trigger] middle.render(r) == render_member(Some(inner), r),
    ensures
        outer.render(req) == inner.render(
            Request {
                full_name: req.full_name,
                name: req.name.skip(2),
                args: req.args,
                flags: req.flags,
                options: req.options,
            },
        ),
{
    assert(req.name.skip(1).skip(1) =~= req.name.skip(2));
}

/// Rendering goes piece by piece: a sequence renders as its first part
/// followed by its second part, and fails where the first of them fails.
pub proof fn lemma_render_concat<T: FormatTable + ?Sized>(
    table: &T,
    first: Seq<PieceModel>,
    second: Seq<PieceModel>,
)
    ensures
        render_pieces(table, first + second) == match render_pieces(table, first) {
            Err(e) => Err(e),
            Ok(head) => match render_pieces(table, second) {
                Err(e) => Err(e),
                Ok(tail) => Ok(head + tail),
            },
        },
    decreases second.len(),
{
    if second.len() == 0 {
        assert(first + second =~= first);
        match render_pieces(table, first) {
            Ok(head) => {
                assert(head + Seq::<char>::empty() =~= head);
            },
            Err(_) => {},
        }
    } else {
        let all = first + second;
        assert(all.drop_last() =~= first + second.drop_last());
        assert(all.last() == second.last());
        lemma_render_concat(table, first, second.drop_last());
        match (render_pieces(table, first), render_pieces(table, second.drop_last()), render_piece(
            table,
            second.last(),
        )) {
            (Ok(head), Ok(middle), Ok(text)) => {
                assert((head + middle) + text =~= head + (middle + text));
            },
            _ => {},
        }
    }
}

/// A piece that occurs twice renders the same text twice: each occurrence
/// is looked up and rendered for itself, and nothing is kept between them.
pub proof fn lemma_repeated_piece<T: FormatTable + ?Sized>(
    table: &T,
    piece: PieceModel,
    between: Seq<PieceModel>,
)
    ensures
        render_pieces(table, seq![piece] + between + seq![piece]) == match render_piece(table, piece) {
            Err(e) => Err(e),
            Ok(text) => match render_pieces(table, between) {
                Err(e) => Err(e),
                Ok(middle) => Ok(text + middle + text),
            },
        },
{
    let one = seq![piece];
    assert(one.drop_last() =~= Seq::<PieceModel>::empty());
    assert(one.last() == piece);
    assert(render_pieces(table, one.drop_last()) == Ok::<Seq<char>, FormattingErrorModel>(Seq::empty()));
    match render_piece(table, piece) {
        Ok(text) => {
            assert(Seq::<char>::empty() + text =~= text);
        },
        Err(_) => {},
    }
    lemma_render_concat(table, one, between);
    lemma_render_concat(table, one + between, one);
}

/// Where `key_index` stops, the name stands; before that it does not.
pub proof fn lemma_key_index(opts: OptionModels, key: Seq<char>, j: int)
    requires
        0 <= j <= opts.len(),
    ensures
        j <= key_index(opts, key, j) <= opts.len(),
        key_index(opts, key, j) < opts.len() ==> opts[key_index(opts, key, j)].0 == key,
        forall|k: int| j <= k < key_index(opts, key, j) ==> (#[trigger] opts[k]).0 != key,
    decreases opts.len() - j,
{
    if j < opts.len() && opts[j].0 != key {
        lemma_key_index(opts, key, j + 1);
    }
}

/// Whether the options are distinct and their values keep the invariant of
/// the data model.
pub open spec fn options_well_formed(opts: OptionModels) -> bool {
    &&& distinct_keys(opts)
    &&& forall|i: int| 0 <= i < opts.len() ==> all_well_formed((#[trigger] opts[i]).1)
}

/// Setting an option keeps the option names distinct.
pub proof fn lemma_upsert_shape(opts: OptionModels, key: Seq<char>, value: Seq<PieceModel>)
    requires
        options_well_formed(opts),
        all_well_formed(value),
    ensures
        options_well_formed(upsert(opts, key, value)),
{
    lemma_key_index(opts, key, 0);
    let j = key_index(opts, key, 0);
    let after = upsert(opts, key, value);
    if j < opts.len() {
        assert forall|a: int, b: int| 0 <= a < b < after.len() implies (#[trigger] after[a]).0 != (
        #[trigger] after[b]).0 by {
            assert(after[a].0 == opts[a].0);
            assert(after[b].0 == opts[b].0);
        }
        assert forall|i: int| 0 <= i < after.len() implies all_well_formed((#[trigger] after[i]).1) by {
            if i != j {
                assert(after[i] == opts[i]);
            }
        }
    } else {
        assert forall|a: int, b: int| 0 <= a < b < after.len() implies (#[trigger] after[a]).0 != (
        #[trigger] after[b]).0 by {
            assert(after[a] == opts[a]);
            if b < opts.len() {
                assert(after[b] == opts[b]);
            }
        }
        assert forall|i: int| 0 <= i < after.len() implies all_well_formed((#[trigger] after[i]).1) by {
            if i < opts.len() {
                assert(after[i] == opts[i]);
            }
        }
    }
}

/// The pieces that the grammar gives keep the invariant of the data model.
pub proof fn lemma_pieces_shape(s: Seq<char>, i: int, end: int, acc: Seq<PieceModel>)
    requires
        0 <= i <= end <= s.len(),
        all_well_formed(acc),
        parse_pieces(s, i, end, acc) is Ok,
    ensures
        all_well_formed(parse_pieces(s, i, end, acc)->Ok_0),
    decreases end - i, 2nat,
{
    if i >= end {
    } else if s[i] == '{' {
        let close = scan(s, i + 1, end, 0, Stop::Close);
        lemma_scan_bounds(s, i + 1, end, 0, Stop::Close);
        let next = if close < end {
            close + 1
        } else {
            end
        };
        match parse_placeholder(s, i, end) {
            Err(_) => {},
            Ok(p) => {
                lemma_placeholder_shape(s, i, end);
                lemma_push_shape(acc, p);
                lemma_pieces_shape(s, next, end, acc.push(p));
            },
        }
    } else if s[i] == ':' || s[i] == '}' {
        lemma_pieces_shape(s, i + 1, end, acc);
    } else {
        let j = scan(s, i, end, 0, Stop::Literal);
        lemma_scan_bounds(s, i + 1, end, 0, Stop::Literal);
        if i + 2 <= end {
            lemma_scan_bounds(s, i + 2, end, 0, Stop::Literal);
        }
        let p = PieceModel::Literal(unescape(s, i, j));
        lemma_push_shape(acc, p);
        lemma_pieces_shape(s, j, end, acc.push(p));
    }
}

/// Appending a piece that keeps the invariant keeps it for the sequence.
pub proof fn lemma_push_shape(acc: Seq<PieceModel>, p: PieceModel)
    requires
        all_well_formed(acc),
        well_formed(p),
    ensures
        all_well_formed(acc.push(p)),
{
    assert forall|k: int| 0 <= k < acc.push(p).len() implies well_formed(#[trigger] acc.push(p)[k]) by {
        if k < acc.len() {
            assert(acc.push(p)[k] == acc[k]);
        }
    }
}

/// The placeholder that the grammar gives keeps the invariant of the data
/// model.
pub proof fn lemma_placeholder_shape(s: Seq<char>, i: int, end: int)
    requires
        0 <= i < end <= s.len(),
        parse_placeholder(s, i, end) is Ok,
    ensures
        well_formed(parse_placeholder(s, i, end)->Ok_0),
    decreases end - i, 1nat,
{
    let b = i + 1;
    let close = scan(s, b, end, 0, Stop::Close);
    lemma_scan_bounds(s, b, end, 0, Stop::Close);
    let n = scan(s, b, close, 0, Stop::Name);
    lemma_scan_bounds(s, b, close, 0, Stop::Name);
    assert(name_ok(s, b, n));
    lemma_segments_exist(s, b, b, n);
    let parsed_args = if n < close && s[n] == '(' {
        if n + 1 < close && s[n + 1] == ')' {
            Ok((Seq::empty(), scan(s, n + 2, close, 0, Stop::Field)))
        } else {
            parse_args(s, n, n + 1, close, Seq::empty())
        }
    } else {
        Ok((Seq::empty(), n))
    };
    if n < close && s[n] == '(' && !(n + 1 < close && s[n + 1] == ')') {
        lemma_args_shape(s, n, n + 1, close, Seq::empty());
    }
    match parsed_args {
        Err(_) => {},
        Ok((args, f)) => {
            let g = if i < f < close {
                scan(s, f + 1, close, 0, Stop::Field)
            } else {
                close
            };
            if i < f < close {
                lemma_scan_bounds(s, f + 1, close, 0, Stop::Field);
            }
            lemma_options_shape(s, g, close, Seq::empty());
        },
    }
}

/// The arguments that the grammar gives keep the invariant of the data
/// model.
pub proof fn lemma_args_shape(s: Seq<char>, open: int, a: int, close: int, acc: Seq<Seq<PieceModel>>)
    requires
        0 <= open < a <= close <= s.len(),
        forall|k: int| 0 <= k < acc.len() ==> all_well_formed(#[trigger] acc[k]),
        parse_args(s, open, a, close, acc) is Ok,
    ensures
        forall|k: int|
            0 <= k < (parse_args(s, open, a, close, acc)->Ok_0).0.len() ==> all_well_formed(
                #[trigger] (parse_args(s, open, a, close, acc)->Ok_0).0[k],
            ),
    decreases close - a, 0nat,
{
    let e = scan(s, a, close, 0, Stop::Argument);
    lemma_scan_bounds(s, a, close, 0, Stop::Argument);
    if e < close {
        match parse_pieces(s, a, e, Seq::empty()) {
            Err(_) => {},
            Ok(arg) => {
                lemma_pieces_shape(s, a, e, Seq::empty());
                let more = acc.push(arg);
                assert forall|k: int| 0 <= k < more.len() implies all_well_formed(#[trigger] more[k]) by {
                    if k < acc.len() {
                        assert(more[k] == acc[k]);
                    }
                }
                if s[e] != ')' {
                    lemma_args_shape(s, open, e + 1, close, more);
                }
            },
        }
    }
}

/// The options that the grammar gives keep the invariant of the data
/// model.
pub proof fn lemma_options_shape(s: Seq<char>, g: int, close: int, acc: OptionModels)
    requires
        0 <= g <= close <= s.len(),
        options_well_formed(acc),
        parse_options(s, g, close, acc) is Ok,
    ensures
        options_well_formed(parse_options(s, g, close, acc)->Ok_0),
    decreases close - g, 0nat,
{
    if g < close {
        let e = scan(s, g + 1, close, 0, Stop::Field);
        lemma_scan_bounds(s, g + 1, close, 0, Stop::Field);
        if e == g + 1 {
            lemma_options_shape(s, e, close, acc);
        } else {
            let k = scan(s, g + 1, e, 0, Stop::Key);
            lemma_scan_bounds(s, g + 1, e, 0, Stop::Key);
            let v = if k < e {
                k + 1
            } else {
                e
            };
            match parse_pieces(s, v, e, Seq::empty()) {
                Err(_) => {},
                Ok(value) => {
                    lemma_pieces_shape(s, v, e, Seq::empty());
                    lemma_upsert_shape(acc, unescape(s, g + 1, k), value);
                    lemma_options_shape(s, e, close, upsert(acc, unescape(s, g + 1, k), value));
                },
            }
        }
    }
}

/// Every format string that parses gives pieces that keep the invariant of
/// the data model: no placeholder without a name, no empty name segment,
/// no option name twice.
pub proof fn lemma_parse_shape(s: Seq<char>)
    requires
        parse_spec(s) is Ok,
    ensures
        all_well_formed(parse_spec(s)->Ok_0),
{
    lemma_pieces_shape(s, 0, s.len() as int, Seq::empty());
}

} // verus!
