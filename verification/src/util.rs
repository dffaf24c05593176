//! Helpers shared by the implementations of `Fmt`: the common options, the
//! sign of numbers, and dotted names.

use vstd::prelude::*;
use vstd::slice::slice_subrange;
use vstd::string::{StrSliceExecFns, StringExecFns};
use crate::error::{leaf_result_view, SingleFmtError, SingleFmtErrorModel};
use crate::fmt::{request, Fmt, Request};
use crate::name_map::{texts, NameMap};
use crate::number::{decimal, parse_decimal};
use crate::text::{contains_char, push_char, spaces, strings_view, to_chars};

verus! {

/// The segments of a name, joined by `.`.
pub open spec fn dotted(name: Seq<Seq<char>>) -> Seq<char>
    decreases name.len(),
{
    if name.len() == 0 {
        Seq::empty()
    } else if name.len() == 1 {
        name[0]
    } else {
        dotted(name.drop_last()) + seq!['.'] + name.last()
    }
}

/// Joins the segments of a name with `.`.
pub fn join_name(name: &[String]) -> (r: String)
    ensures
        r@ == dotted(strings_view(name@)),
{
    let ghost segments = strings_view(name@);
    let mut out = String::new();
    let mut i: usize = 0;
    while i < name.len()
        invariant
            i <= name@.len(),
            segments == strings_view(name@),
            out@ == dotted(segments.take(i as int)),
        decreases name.len() - i,
    {
        if i > 0 {
            push_char(&mut out, '.');
        }
        out.append(name[i].as_str());
        proof {
            let next = segments.take(i + 1);
            assert(next.drop_last() =~= segments.take(i as int));
            assert(next.last() == name@[i as int]@);
            if i > 0 {
                assert(out@ =~= dotted(next.drop_last()) + seq!['.'] + next.last());
            }
        }
        i += 1;
    }
    assert(segments.take(name@.len() as int) =~= segments);
    out
}

/// What a value that wraps members renders, `member` being the member
/// that the first segment of the remaining name selects, if there is one.
///
/// With no name left the value is used as a namespace, which fails; a
/// name that selects no member fails too, and both failures carry the full
/// dotted name. Otherwise the member renders the request, with the full
/// name kept and the remaining name shortened by its first segment.
pub open spec fn render_member<M: Fmt + ?Sized>(member: Option<&M>, req: Request) -> Result<
    Seq<char>,
    SingleFmtErrorModel,
> {
    if req.name.len() == 0 {
        Err(SingleFmtErrorModel::NamespaceOnlyFmt(dotted(req.full_name)))
    } else {
        match member {
            None => Err(SingleFmtErrorModel::UnknownSubfmt(dotted(req.full_name))),
            Some(m) => m.render(
                Request {
                    full_name: req.full_name,
                    name: req.name.skip(1),
                    args: req.args,
                    flags: req.flags,
                    options: req.options,
                },
            ),
        }
    }
}

/// Renders a value that wraps members: hands the request on to the member
/// that the caller selected by the first segment of `name`.
pub fn format_member<M: Fmt + ?Sized>(
    member: Option<&M>,
    full_name: &[String],
    name: &[String],
    args: &[String],
    flags: &[char],
    options: &NameMap<String>,
) -> (r: Result<String, SingleFmtError>)
    ensures
        leaf_result_view(r) == render_member(member, request(full_name@, name@, args@, flags@, options@)),
{
    if name.len() == 0 {
        return Err(SingleFmtError::NamespaceOnlyFmt(join_name(full_name)));
    }
    match member {
        None => Err(SingleFmtError::UnknownSubfmt(join_name(full_name))),
        Some(m) => {
            let rest = slice_subrange(name, 1, name.len());
            assert(strings_view(rest@) =~= strings_view(name@).skip(1));
            m.format(full_name, rest, args, flags, options)
        },
    }
}

/// Where a text stands in a field that is wider than the text.
#[derive(Clone, Copy, Debug, PartialEq, Eq)]
pub enum Justification {
    Left(),
    Center(),
    Right(),
}

/// What a value of the option `width` asks for: a justification, written
/// `l`, `c` or `r`, and after it the width in decimal digits.
pub open spec fn width_request(value: Seq<char>) -> Option<(Justification, nat)> {
    if value.len() == 0 {
        None
    } else {
        match decimal(value.skip(1)) {
            Some(width) => if width > usize::MAX {
                None
            } else if value[0] == 'l' {
                Some((Justification::Left(), width))
            } else if value[0] == 'c' {
                Some((Justification::Center(), width))
            } else if value[0] == 'r' {
                Some((Justification::Right(), width))
            } else {
                None
            },
            None => None,
        }
    }
}

/// `text` in a field of `width` characters. A text that fills the field
/// stays as it is. Centering puts the smaller half of the padding on the
/// left.
pub open spec fn padded(text: Seq<char>, justification: Justification, width: nat) -> Seq<char> {
    if text.len() >= width {
        text
    } else {
        let delta = (width - text.len()) as nat;
        match justification {
            Justification::Left() => text + spaces(delta),
            Justification::Center() => spaces(delta / 2) + text + spaces((delta - delta / 2) as nat),
            Justification::Right() => spaces(delta) + text,
        }
    }
}

/// `text` after the option `width`, if there is one.
pub open spec fn with_width(text: Seq<char>, options: Map<Seq<char>, Seq<char>>) -> Result<
    Seq<char>,
    SingleFmtErrorModel,
> {
    if !options.contains_key("width"@) {
        Ok(text)
    } else {
        match width_request(options["width"@]) {
            Some((justification, width)) => Ok(padded(text, justification, width)),
            None => Err(SingleFmtErrorModel::InvalidOptionValue("width"@, options["width"@])),
        }
    }
}

/// What a value of the option `truncate` asks for: the side that is cut,
/// written `l` or `r`, and after it the length to keep in decimal digits.
/// The flag says whether the left side is cut.
pub open spec fn truncate_request(value: Seq<char>) -> Option<(bool, nat)> {
    if value.len() == 0 {
        None
    } else {
        match decimal(value.skip(1)) {
            Some(length) => if length > usize::MAX {
                None
            } else if value[0] == 'l' {
                Some((true, length))
            } else if value[0] == 'r' {
                Some((false, length))
            } else {
                None
            },
            None => None,
        }
    }
}

/// `text` cut to `length` characters: cut on the left it keeps its end, cut
/// on the right its start. A text that is short enough stays as it is.
pub open spec fn truncated(text: Seq<char>, cut_left: bool, length: nat) -> Seq<char> {
    if text.len() <= length {
        text
    } else if cut_left {
        text.skip(text.len() - length)
    } else {
        text.take(length as int)
    }
}

/// `text` after the option `truncate`, if there is one.
pub open spec fn with_truncation(text: Seq<char>, options: Map<Seq<char>, Seq<char>>) -> Result<
    Seq<char>,
    SingleFmtErrorModel,
> {
    if !options.contains_key("truncate"@) {
        Ok(text)
    } else {
        match truncate_request(options["truncate"@]) {
            Some((cut_left, length)) => Ok(truncated(text, cut_left, length)),
            None => Err(SingleFmtErrorModel::InvalidOptionValue("truncate"@, options["truncate"@])),
        }
    }
}

/// `text` after the common options: truncated first, then padded.
pub open spec fn with_common_options(text: Seq<char>, options: Map<Seq<char>, Seq<char>>) -> Result<
    Seq<char>,
    SingleFmtErrorModel,
> {
    match with_truncation(text, options) {
        Err(e) => Err(e),
        Ok(cut) => with_width(cut, options),
    }
}

/// Truncation before padding: a text that was cut to `length` and then
/// padded to `width` has the longer of the two lengths, the cut length and
/// the width.
pub proof fn lemma_truncate_then_pad(
    text: Seq<char>,
    cut_left: bool,
    length: nat,
    justification: Justification,
    width: nat,
)
    ensures
        truncated(text, cut_left, length).len() == if text.len() <= length {
            text.len()
        } else {
            length
        },
        padded(truncated(text, cut_left, length), justification, width).len() == if truncated(
            text,
            cut_left,
            length,
        ).len() >= width {
            truncated(text, cut_left, length).len()
        } else {
            width
        },
{
}

/// `text` with a `+` before it, if the flags hold `+` and the text is not
/// empty and does not start with `-`.
pub open spec fn with_plus(text: Seq<char>, flags: Seq<char>) -> Seq<char> {
    if text.len() > 0 && flags.contains('+') && text[0] != '-' {
        seq!['+'] + text
    } else {
        text
    }
}

/// A string of `n` spaces.
fn spaces_string(n: usize) -> (r: String)
    ensures
        r@ == spaces(n as nat),
{
    let mut out = String::new();
    let mut i: usize = 0;
    while i < n
        invariant
            i <= n,
            out@ == spaces(i as nat),
        decreases n - i,
    {
        push_char(&mut out, ' ');
        assert(out@ =~= spaces((i + 1) as nat));
        i += 1;
    }
    out
}

/// Applies the options `truncate` and `width`, in this order.
pub fn apply_common_options(s: &mut String, options: &NameMap<String>) -> (r: Result<(), SingleFmtError>)
    ensures
        match with_common_options(old(s)@, texts(options@)) {
            Ok(text) => r is Ok && final(s)@ == text,
            Err(e) => r matches Err(x) && x@ == e,
        },
        r is Err ==> final(s)@ == (match with_truncation(old(s)@, texts(options@)) {
            Ok(cut) => cut,
            Err(_) => old(s)@,
        }),
{
    match apply_truncation(s, options) {
        Err(e) => {
            return Err(e);
        },
        Ok(()) => {},
    }
    apply_width(s, options)
}

/// Applies the option `width`: pads `s` with spaces to the width that the
/// option asks for. Without the option `s` stays as it is; with a value
/// that is no justification and width, the call fails and `s` stays as it
/// is.
pub fn apply_width(s: &mut String, options: &NameMap<String>) -> (r: Result<(), SingleFmtError>)
    ensures
        match with_width(old(s)@, texts(options@)) {
            Ok(text) => r is Ok && final(s)@ == text,
            Err(e) => r matches Err(x) && x@ == e && final(s)@ == old(s)@,
        },
{
    let width_str = match options.get("width") {
        None => {
            return Ok(());
        },
        Some(width_str) => width_str,
    };
    let chars = to_chars(width_str.as_str());
    if chars.len() == 0 {
        return Err(SingleFmtError::InvalidOptionValue("width".to_owned(), width_str.clone()));
    }
    let width = match parse_decimal(chars.as_slice(), 1) {
        None => {
            return Err(SingleFmtError::InvalidOptionValue("width".to_owned(), width_str.clone()));
        },
        Some(width) => width,
    };
    let first = chars[0];
    let justification = if first == 'l' {
        Justification::Left()
    } else if first == 'c' {
        Justification::Center()
    } else if first == 'r' {
        Justification::Right()
    } else {
        return Err(SingleFmtError::InvalidOptionValue("width".to_owned(), width_str.clone()));
    };
    let len = s.as_str().unicode_len();
    if len >= width {
        return Ok(());
    }
    let delta: usize = width - len;
    match justification {
        Justification::Left() => {
            let padding = spaces_string(delta);
            s.append(padding.as_str());
        },
        Justification::Center() => {
            let left: usize = delta / 2;
            let right: usize = delta - left;
            let mut out = spaces_string(left);
            out.append(s.as_str());
            let padding = spaces_string(right);
            out.append(padding.as_str());
            *s = out;
        },
        Justification::Right() => {
            let mut out = spaces_string(delta);
            out.append(s.as_str());
            *s = out;
        },
    }
    Ok(())
}

/// Applies the option `truncate`: cuts `s` to the length that the option
/// asks for, on the side that it names. Without the option `s` stays as it
/// is; with a value that is no side and length, the call fails and `s`
/// stays as it is.
pub fn apply_truncation(s: &mut String, options: &NameMap<String>) -> (r: Result<(), SingleFmtError>)
    ensures
        match with_truncation(old(s)@, texts(options@)) {
            Ok(text) => r is Ok && final(s)@ == text,
            Err(e) => r matches Err(x) && x@ == e && final(s)@ == old(s)@,
        },
{
    let opt_str = match options.get("truncate") {
        None => {
            return Ok(());
        },
        Some(opt_str) => opt_str,
    };
    let chars = to_chars(opt_str.as_str());
    if chars.len() == 0 {
        return Err(SingleFmtError::InvalidOptionValue("truncate".to_owned(), opt_str.clone()));
    }
    let length = match parse_decimal(chars.as_slice(), 1) {
        None => {
            return Err(SingleFmtError::InvalidOptionValue("truncate".to_owned(), opt_str.clone()));
        },
        Some(length) => length,
    };
    let first = chars[0];
    let cut_left = if first == 'l' {
        true
    } else if first == 'r' {
        false
    } else {
        return Err(SingleFmtError::InvalidOptionValue("truncate".to_owned(), opt_str.clone()));
    };
    let len = s.as_str().unicode_len();
    if len <= length {
        return Ok(());
    }
    let kept = if cut_left {
        s.as_str().substring_char(len - length, len).to_owned()
    } else {
        s.as_str().substring_char(0, length).to_owned()
    };
    *s = kept;
    Ok(())
}

/// Applies the flag `+`: puts a `+` before a number that has no `-`.
/// An empty string stays empty. The options are not consulted, and the
/// call never fails.
pub fn apply_common_numeric_options(s: &mut String, flags: &[char], _options: &NameMap<String>) -> (r: Result<
    (),
    SingleFmtError,
>)
    ensures
        r is Ok,
        final(s)@ == with_plus(old(s)@, flags@),
{
    if s.as_str().unicode_len() == 0 {
        return Ok(());
    }
    if contains_char(flags, '+') && s.as_str().get_char(0) != '-' {
        let mut out = String::new();
        push_char(&mut out, '+');
        out.append(s.as_str());
        *s = out;
    }
    Ok(())
}

} // verus!
