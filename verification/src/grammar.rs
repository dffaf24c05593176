//! The grammar of format strings, as functions on character sequences.
//!
//! A format string is a sequence of literal runs and placeholders. A
//! placeholder stands between an unescaped `{` and the matching `}`, and
//! reads `name[.name]*[(arg[,arg]*)][:flags[:key=value]*]`. The escape
//! character `\` takes the syntactic meaning from the character that
//! follows it. Arguments and option values are format strings themselves.
//!
//! Every function here works on a range `[i, end)` of one sequence, so that
//! the text of a nested format string needs no copy.

use vstd::prelude::*;
use crate::error::ParseErrorModel;
use crate::piece::PieceModel;

verus! {

/// What ends the part of a format string that is being read.
#[derive(Clone, Copy, Debug, PartialEq, Eq)]
pub enum Stop {
    /// A literal run ends at `{`, `}` or `:`.
    Literal,
    /// A placeholder ends at its closing `}`.
    Close,
    /// A dotted name ends at `(` or `:`.
    Name,
    /// An argument ends at `,` or `)`.
    Argument,
    /// The flags and each option end at `:`.
    Field,
    /// An option's key ends at `=`.
    Key,
}

/// Whether the unescaped character `c`, outside nested braces, ends a part
/// of kind `k`.
pub open spec fn stops(k: Stop, c: char) -> bool {
    match k {
        Stop::Literal => c == '{' || c == '}' || c == ':',
        Stop::Close => c == '}',
        Stop::Name => c == '(' || c == ':',
        Stop::Argument => c == ',' || c == ')',
        Stop::Field => c == ':',
        Stop::Key => c == '=',
    }
}

/// The first position in `[i, end)` that holds an unescaped character which
/// ends a part of kind `k` and stands outside nested braces, `depth` braces
/// being open at `i`; `end` if there is none.
pub open spec fn scan(s: Seq<char>, i: int, end: int, depth: nat, k: Stop) -> int
    decreases end - i,
{
    if i >= end {
        end
    } else if s[i] == '\\' {
        if i + 2 <= end {
            scan(s, i + 2, end, depth, k)
        } else {
            end
        }
    } else if depth == 0 && stops(k, s[i]) {
        i
    } else if s[i] == '{' {
        scan(s, i + 1, end, depth + 1, k)
    } else if s[i] == '}' && depth > 0 {
        scan(s, i + 1, end, (depth - 1) as nat, k)
    } else {
        scan(s, i + 1, end, depth, k)
    }
}

/// The text `s[i..end)` with each escape character removed and the
/// character after it kept. An escape character at the very end of the
/// range has nothing to escape and is dropped.
pub open spec fn unescape(s: Seq<char>, i: int, end: int) -> Seq<char>
    decreases end - i,
{
    if i >= end {
        Seq::empty()
    } else if s[i] == '\\' {
        if i + 2 <= end {
            seq![s[i + 1]] + unescape(s, i + 2, end)
        } else {
            Seq::empty()
        }
    } else {
        seq![s[i]] + unescape(s, i + 1, end)
    }
}

/// The segments of the dotted name `s[from..end)`, read from position `i`
/// on: the text is split at each `.`.
pub open spec fn name_segments(s: Seq<char>, from: int, i: int, end: int) -> Seq<Seq<char>>
    decreases end - i,
{
    if i >= end {
        seq![s.subrange(from, end)]
    } else if s[i] == '.' {
        seq![s.subrange(from, i)] + name_segments(s, i + 1, i + 1, end)
    } else {
        name_segments(s, from, i + 1, end)
    }
}

/// Whether `s[b..n)` is a valid dotted name: it holds no escape character
/// and none of its segments is empty.
pub open spec fn name_ok(s: Seq<char>, b: int, n: int) -> bool {
    &&& forall|j: int| b <= j < n ==> s[j] != '\\'
    &&& forall|k: int|
        0 <= k < name_segments(s, b, b, n).len() ==> (#[trigger] name_segments(s, b, b, n)[k]).len() > 0
}

/// The options of a placeholder: names with their values.
pub type OptionModels = Seq<(Seq<char>, Seq<PieceModel>)>;

/// The first position from `j` on at which `opts` holds the name `key`; the
/// length of `opts` if there is none.
pub open spec fn key_index(opts: OptionModels, key: Seq<char>, j: int) -> int
    decreases opts.len() - j,
{
    if j >= opts.len() {
        opts.len() as int
    } else if opts[j].0 == key {
        j
    } else {
        key_index(opts, key, j + 1)
    }
}

/// `opts` with `key` set to `value`: a name that is there keeps its place
/// and gets the new value, a new name goes to the end.
pub open spec fn upsert(opts: OptionModels, key: Seq<char>, value: Seq<PieceModel>) -> OptionModels {
    let j = key_index(opts, key, 0);
    if 0 <= j < opts.len() {
        opts.update(j, (key, value))
    } else {
        opts.push((key, value))
    }
}

/// The result of `scan` lies in the range that was scanned.
pub proof fn lemma_scan_bounds(s: Seq<char>, i: int, end: int, depth: nat, k: Stop)
    requires
        i <= end,
    ensures
        i <= scan(s, i, end, depth, k) <= end,
    decreases end - i,
{
    if i >= end {
    } else if s[i] == '\\' {
        if i + 2 <= end {
            lemma_scan_bounds(s, i + 2, end, depth, k);
        }
    } else if depth == 0 && stops(k, s[i]) {
    } else if s[i] == '{' {
        lemma_scan_bounds(s, i + 1, end, depth + 1, k);
    } else if s[i] == '}' && depth > 0 {
        lemma_scan_bounds(s, i + 1, end, (depth - 1) as nat, k);
    } else {
        lemma_scan_bounds(s, i + 1, end, depth, k);
    }
}

/// The pieces of the format string `s[i..end)`, after the pieces `acc`
/// that were read before `i`.
///
/// A `{` opens a placeholder, which ends at the matching `}`. An
/// unescaped `:` or `}` between pieces separates them and stands for no
/// text. Anything else starts a literal run, which ends before the next
/// unescaped `{`, `}` or `:`.
pub open spec fn parse_pieces(s: Seq<char>, i: int, end: int, acc: Seq<PieceModel>) -> Result<
    Seq<PieceModel>,
    ParseErrorModel,
>
    decreases end - i, 2nat,
    when 0 <= i <= end <= s.len()
{
    if i >= end {
        Ok(acc)
    } else if s[i] == '{' {
        let close = scan(s, i + 1, end, 0, Stop::Close);
        let next = if close < end {
            close + 1
        } else {
            end
        };
        match parse_placeholder(s, i, end) {
            Err(e) => Err(e),
            Ok(p) => {
                proof {
                    lemma_scan_bounds(s, i + 1, end, 0, Stop::Close);
                }
                parse_pieces(s, next, end, acc.push(p))
            },
        }
    } else if s[i] == ':' || s[i] == '}' {
        parse_pieces(s, i + 1, end, acc)
    } else {
        let j = scan(s, i, end, 0, Stop::Literal);
        proof {
            lemma_scan_bounds(s, i + 1, end, 0, Stop::Literal);
            if i + 2 <= end {
                lemma_scan_bounds(s, i + 2, end, 0, Stop::Literal);
            }
        }
        parse_pieces(s, j, end, acc.push(PieceModel::Literal(unescape(s, i, j))))
    }
}

/// The placeholder that opens at `s[i]`, in the format string that ends at
/// `end`.
///
/// The name runs to the first `(` or `:` or to the closing brace. A name
/// that runs to the end of the text leaves the placeholder unterminated;
/// a name with an escape character or an empty segment is refused. An
/// argument list follows a `(`; `()` holds no argument, and what stands
/// between the `)` and the next `:` is passed over. After the arguments the
/// closing brace must exist. The flags follow the first `:`, the options
/// each further `:`.
pub open spec fn parse_placeholder(s: Seq<char>, i: int, end: int) -> Result<PieceModel, ParseErrorModel>
    decreases end - i, 1nat,
    when 0 <= i < end <= s.len()
{
    let b = i + 1;
    let close = scan(s, b, end, 0, Stop::Close);
    let n = scan(s, b, close, 0, Stop::Name);
    if n >= end {
        Err(ParseErrorModel::UnterminatedPlaceholder(s.subrange(i, end)))
    } else if !name_ok(s, b, n) {
        Err(ParseErrorModel::EmptyNameSegment(s.subrange(b, n)))
    } else {
        let parsed_args = if n < close && s[n] == '(' {
            if n + 1 < close && s[n + 1] == ')' {
                Ok((Seq::empty(), scan(s, n + 2, close, 0, Stop::Field)))
            } else {
                proof {
                    lemma_scan_bounds(s, b, end, 0, Stop::Close);
                    lemma_scan_bounds(s, b, close, 0, Stop::Name);
                }
                parse_args(s, n, n + 1, close, Seq::empty())
            }
        } else {
            Ok((Seq::empty(), n))
        };
        match parsed_args {
            Err(e) => Err(e),
            Ok((args, f)) => {
                if close >= end {
                    Err(ParseErrorModel::UnterminatedPlaceholder(s.subrange(i, end)))
                } else {
                    let g = if i < f < close {
                        scan(s, f + 1, close, 0, Stop::Field)
                    } else {
                        close
                    };
                    let flags = if i < f < close {
                        unescape(s, f + 1, g)
                    } else {
                        Seq::empty()
                    };
                    proof {
                        lemma_scan_bounds(s, b, end, 0, Stop::Close);
                        if i < f < close {
                            lemma_scan_bounds(s, f + 1, close, 0, Stop::Field);
                        }
                    }
                    match parse_options(s, g, close, Seq::empty()) {
                        Err(e) => Err(e),
                        Ok(options) => Ok(
                            PieceModel::Placeholder {
                                name: name_segments(s, b, b, n),
                                args,
                                flags,
                                options,
                            },
                        ),
                    }
                }
            },
        }
    }
}

/// The arguments of the list that opened at `s[open]`, read from position
/// `a` on, after the arguments `acc`; with them the position where the
/// flags start, or `close` if there are none. The list must end with a `)`
/// before `close`.
pub open spec fn parse_args(s: Seq<char>, open: int, a: int, close: int, acc: Seq<Seq<PieceModel>>) -> Result<
    (Seq<Seq<PieceModel>>, int),
    ParseErrorModel,
>
    decreases close - a, 0nat,
    when 0 <= open < a <= close <= s.len()
{
    let e = scan(s, a, close, 0, Stop::Argument);
    if e >= close {
        Err(ParseErrorModel::UnterminatedArgumentList(s.subrange(open, close)))
    } else {
        proof {
            lemma_scan_bounds(s, a, close, 0, Stop::Argument);
        }
        match parse_pieces(s, a, e, Seq::empty()) {
            Err(x) => Err(x),
            Ok(arg) => {
                if s[e] == ')' {
                    Ok((acc.push(arg), scan(s, e + 1, close, 0, Stop::Field)))
                } else {
                    parse_args(s, open, e + 1, close, acc.push(arg))
                }
            },
        }
    }
}

/// The options that stand in `s[g..close)`, after the options `acc`. Each
/// option follows a `:` and reads `key=value`; an empty option is passed
/// over, and an option without `=` has an empty value.
pub open spec fn parse_options(s: Seq<char>, g: int, close: int, acc: OptionModels) -> Result<
    OptionModels,
    ParseErrorModel,
>
    decreases close - g, 0nat,
    when 0 <= g <= close <= s.len()
{
    if g >= close {
        Ok(acc)
    } else {
        let e = scan(s, g + 1, close, 0, Stop::Field);
        proof {
            lemma_scan_bounds(s, g + 1, close, 0, Stop::Field);
        }
        if e == g + 1 {
            parse_options(s, e, close, acc)
        } else {
            let k = scan(s, g + 1, e, 0, Stop::Key);
            proof {
                lemma_scan_bounds(s, g + 1, e, 0, Stop::Key);
            }
            let v = if k < e {
                k + 1
            } else {
                e
            };
            match parse_pieces(s, v, e, Seq::empty()) {
                Err(x) => Err(x),
                Ok(value) => parse_options(s, e, close, upsert(acc, unescape(s, g + 1, k), value)),
            }
        }
    }
}

/// The pieces of the format string `s`.
pub open spec fn parse_spec(s: Seq<char>) -> Result<Seq<PieceModel>, ParseErrorModel> {
    parse_pieces(s, 0, s.len() as int, Seq::empty())
}

} // verus!
