//! `Fmt` for booleans, characters, strings and integers.
//!
//! None of these has members: with a name left to resolve they fail as an
//! unknown sub-`Fmt`. All of them honour the common options.

use vstd::prelude::*;
use crate::error::{leaf_result_view, SingleFmtError, SingleFmtErrorModel};
use crate::fmt::{request, Fmt, Request};
use crate::name_map::NameMap;
use crate::integer::{int_to_str, integer_text};
use crate::text::{contains_char, push_char};
use crate::util::{
    apply_common_numeric_options, apply_common_options, dotted, join_name, with_common_options,
    with_plus,
};

verus! {

/// What a value without members renders, `text` being its own text: the
/// text after the common options, or a failure if a member is asked for.
pub open spec fn render_leaf(text: Seq<char>, req: Request) -> Result<Seq<char>, SingleFmtErrorModel> {
    if req.name.len() > 0 {
        Err(SingleFmtErrorModel::UnknownSubfmt(dotted(req.full_name)))
    } else {
        with_common_options(text, req.options)
    }
}

/// The text of a boolean: `yes` and `no` with the flag `y`, else `Y` and
/// `N` with the flag `Y`, else `true` and `false`.
pub open spec fn bool_text(value: bool, flags: Seq<char>) -> Seq<char> {
    if value {
        if flags.contains('y') {
            "yes"@
        } else if flags.contains('Y') {
            "Y"@
        } else {
            "true"@
        }
    } else if flags.contains('y') {
        "no"@
    } else if flags.contains('Y') {
        "N"@
    } else {
        "false"@
    }
}

/// Finishes a value without members: applies the common options to its
/// text.
pub fn finish_leaf(text: String, options: &NameMap<String>) -> (r: Result<String, SingleFmtError>)
    ensures
        match with_common_options(text@, crate::name_map::texts(options@)) {
            Ok(t) => r matches Ok(s) && s@ == t,
            Err(e) => r matches Err(x) && x@ == e,
        },
{
    let mut text = text;
    match apply_common_options(&mut text, options) {
        Err(e) => Err(e),
        Ok(()) => Ok(text),
    }
}

/// This instance is aware of the following flags:
/// * `y`, which changes the output from true/false to yes/no;
/// * `Y`, which changes the output to Y/N.
/// Common options are recognised.
impl Fmt for bool {
    open spec fn render(&self, req: Request) -> Result<Seq<char>, SingleFmtErrorModel> {
        render_leaf(bool_text(*self, req.flags), req)
    }

    fn format(
        &self,
        full_name: &[String],
        name: &[String],
        _args: &[String],
        flags: &[char],
        options: &NameMap<String>,
    ) -> (r: Result<String, SingleFmtError>) {
        if name.len() > 0 {
            return Err(SingleFmtError::UnknownSubfmt(join_name(full_name)));
        }
        let res = if *self {
            if contains_char(flags, 'y') {
                "yes".to_owned()
            } else if contains_char(flags, 'Y') {
                "Y".to_owned()
            } else {
                "true".to_owned()
            }
        } else if contains_char(flags, 'y') {
            "no".to_owned()
        } else if contains_char(flags, 'Y') {
            "N".to_owned()
        } else {
            "false".to_owned()
        };
        finish_leaf(res, options)
    }
}

/// This instance has no special flags.
/// Common options are recognised.
impl Fmt for char {
    open spec fn render(&self, req: Request) -> Result<Seq<char>, SingleFmtErrorModel> {
        render_leaf(seq![*self], req)
    }

    fn format(
        &self,
        full_name: &[String],
        name: &[String],
        _args: &[String],
        _flags: &[char],
        options: &NameMap<String>,
    ) -> (r: Result<String, SingleFmtError>) {
        if name.len() > 0 {
            return Err(SingleFmtError::UnknownSubfmt(join_name(full_name)));
        }
        let mut s = String::new();
        push_char(&mut s, *self);
        assert(s@ =~= seq![*self]);
        finish_leaf(s, options)
    }
}

/// This instance has no special flags.
/// Common options are recognised.
impl<'a> Fmt for &'a str {
    open spec fn render(&self, req: Request) -> Result<Seq<char>, SingleFmtErrorModel> {
        render_leaf(self@, req)
    }

    fn format(
        &self,
        full_name: &[String],
        name: &[String],
        _args: &[String],
        _flags: &[char],
        options: &NameMap<String>,
    ) -> (r: Result<String, SingleFmtError>) {
        if name.len() > 0 {
            return Err(SingleFmtError::UnknownSubfmt(join_name(full_name)));
        }
        let s = (*self).to_owned();
        finish_leaf(s, options)
    }
}

/// This instance has no special flags.
/// Common options are recognised.
impl Fmt for String {
    open spec fn render(&self, req: Request) -> Result<Seq<char>, SingleFmtErrorModel> {
        render_leaf(self@, req)
    }

    fn format(
        &self,
        full_name: &[String],
        name: &[String],
        _args: &[String],
        _flags: &[char],
        options: &NameMap<String>,
    ) -> (r: Result<String, SingleFmtError>) {
        if name.len() > 0 {
            return Err(SingleFmtError::UnknownSubfmt(join_name(full_name)));
        }
        let s = self.clone();
        finish_leaf(s, options)
    }
}

/// What an integer renders, given by its sign and its magnitude: its text
/// in the selected base, with a `+` if the flags ask for one, after the
/// common options.
pub open spec fn render_integer(negative: bool, magnitude: nat, req: Request) -> Result<
    Seq<char>,
    SingleFmtErrorModel,
> {
    if req.name.len() > 0 {
        Err(SingleFmtErrorModel::UnknownSubfmt(dotted(req.full_name)))
    } else {
        match integer_text(negative, magnitude, req.flags, req.options) {
            Err(e) => Err(e),
            Ok(text) => with_common_options(with_plus(text, req.flags), req.options),
        }
    }
}

/// The magnitude of an integer.
pub open spec fn magnitude_of(value: int) -> nat {
    if value < 0 {
        (-value) as nat
    } else {
        value as nat
    }
}

/// Renders an integer, given by its sign and its magnitude.
pub fn format_integer(
    negative: bool,
    magnitude: u128,
    full_name: &[String],
    name: &[String],
    flags: &[char],
    options: &NameMap<String>,
) -> (r: Result<String, SingleFmtError>)
    ensures
        leaf_result_view(r) == render_integer(
            negative,
            magnitude as nat,
            request(full_name@, name@, Seq::empty(), flags@, options@),
        ),
{
    if name.len() > 0 {
        return Err(SingleFmtError::UnknownSubfmt(join_name(full_name)));
    }
    let mut s = match int_to_str(negative, magnitude, flags, options) {
        Err(e) => {
            return Err(e);
        },
        Ok(s) => s,
    };
    match apply_common_numeric_options(&mut s, flags, options) {
        Err(e) => {
            return Err(e);
        },
        Ok(()) => {},
    }
    finish_leaf(s, options)
}

/// Renders a signed integer.
pub fn format_signed(
    value: i128,
    full_name: &[String],
    name: &[String],
    flags: &[char],
    options: &NameMap<String>,
) -> (r: Result<String, SingleFmtError>)
    ensures
        leaf_result_view(r) == render_integer(
            value < 0,
            magnitude_of(value as int),
            request(full_name@, name@, Seq::empty(), flags@, options@),
        ),
{
    let magnitude: u128 = if value < 0 {
        ((-(value + 1)) as u128) + 1
    } else {
        value as u128
    };
    format_integer(value < 0, magnitude, full_name, name, flags, options)
}

/// This instance is aware of the following flags:
/// * `+`, which forces display of the sign;
/// * `b`, which makes the output binary;
/// * `o`, which makes the output octal;
/// * `p`, which in combination with `b`, `o` or `x` adds a base prefix to
///   the output;
/// * `x`, which makes the output hexadecimal.
/// Common and common numeric options are recognised.
impl Fmt for i8 {
    open spec fn render(&self, req: Request) -> Result<Seq<char>, SingleFmtErrorModel> {
        render_integer(*self < 0, magnitude_of(*self as int), req)
    }

    fn format(
        &self,
        full_name: &[String],
        name: &[String],
        _args: &[String],
        flags: &[char],
        options: &NameMap<String>,
    ) -> (r: Result<String, SingleFmtError>) {
        format_signed(*self as i128, full_name, name, flags, options)
    }
}

/// This instance is aware of the following flags:
/// * `+`, which forces display of the sign;
/// * `b`, which makes the output binary;
/// * `o`, which makes the output octal;
/// * `p`, which in combination with `b`, `o` or `x` adds a base prefix to
///   the output;
/// * `x`, which makes the output hexadecimal.
/// Common and common numeric options are recognised.
impl Fmt for i16 {
    open spec fn render(&self, req: Request) -> Result<Seq<char>, SingleFmtErrorModel> {
        render_integer(*self < 0, magnitude_of(*self as int), req)
    }

    fn format(
        &self,
        full_name: &[String],
        name: &[String],
        _args: &[String],
        flags: &[char],
        options: &NameMap<String>,
    ) -> (r: Result<String, SingleFmtError>) {
        format_signed(*self as i128, full_name, name, flags, options)
    }
}

/// This instance is aware of the following flags:
/// * `+`, which forces display of the sign;
/// * `b`, which makes the output binary;
/// * `o`, which makes the output octal;
/// * `p`, which in combination with `b`, `o` or `x` adds a base prefix to
///   the output;
/// * `x`, which makes the output hexadecimal.
/// Common and common numeric options are recognised.
impl Fmt for i32 {
    open spec fn render(&self, req: Request) -> Result<Seq<char>, SingleFmtErrorModel> {
        render_integer(*self < 0, magnitude_of(*self as int), req)
    }

    fn format(
        &self,
        full_name: &[String],
        name: &[String],
        _args: &[String],
        flags: &[char],
        options: &NameMap<String>,
    ) -> (r: Result<String, SingleFmtError>) {
        format_signed(*self as i128, full_name, name, flags, options)
    }
}

/// This instance is aware of the following flags:
/// * `+`, which forces display of the sign;
/// * `b`, which makes the output binary;
/// * `o`, which makes the output octal;
/// * `p`, which in combination with `b`, `o` or `x` adds a base prefix to
///   the output;
/// * `x`, which makes the output hexadecimal.
/// Common and common numeric options are recognised.
impl Fmt for i64 {
    open spec fn render(&self, req: Request) -> Result<Seq<char>, SingleFmtErrorModel> {
        render_integer(*self < 0, magnitude_of(*self as int), req)
    }

    fn format(
        &self,
        full_name: &[String],
        name: &[String],
        _args: &[String],
        flags: &[char],
        options: &NameMap<String>,
    ) -> (r: Result<String, SingleFmtError>) {
        format_signed(*self as i128, full_name, name, flags, options)
    }
}

/// This instance is aware of the following flags:
/// * `+`, which forces display of the sign;
/// * `b`, which makes the output binary;
/// * `o`, which makes the output octal;
/// * `p`, which in combination with `b`, `o` or `x` adds a base prefix to
///   the output;
/// * `x`, which makes the output hexadecimal.
/// Common and common numeric options are recognised.
impl Fmt for i128 {
    open spec fn render(&self, req: Request) -> Result<Seq<char>, SingleFmtErrorModel> {
        render_integer(*self < 0, magnitude_of(*self as int), req)
    }

    fn format(
        &self,
        full_name: &[String],
        name: &[String],
        _args: &[String],
        flags: &[char],
        options: &NameMap<String>,
    ) -> (r: Result<String, SingleFmtError>) {
        format_signed(*self, full_name, name, flags, options)
    }
}

/// This instance is aware of the following flags:
/// * `+`, which forces display of the sign;
/// * `b`, which makes the output binary;
/// * `o`, which makes the output octal;
/// * `p`, which in combination with `b`, `o` or `x` adds a base prefix to
///   the output;
/// * `x`, which makes the output hexadecimal.
/// Common and common numeric options are recognised.
impl Fmt for isize {
    open spec fn render(&self, req: Request) -> Result<Seq<char>, SingleFmtErrorModel> {
        render_integer(*self < 0, magnitude_of(*self as int), req)
    }

    fn format(
        &self,
        full_name: &[String],
        name: &[String],
        _args: &[String],
        flags: &[char],
        options: &NameMap<String>,
    ) -> (r: Result<String, SingleFmtError>) {
        format_signed(*self as i128, full_name, name, flags, options)
    }
}

/// This instance is aware of the following flags:
/// * `+`, which adds a leading plus sign;
/// * `b`, which makes the output binary;
/// * `o`, which makes the output octal;
/// * `p`, which in combination with `b`, `o` or `x` adds a base prefix to
///   the output;
/// * `x`, which makes the output hexadecimal.
/// Common and common numeric options are recognised.
impl Fmt for u8 {
    open spec fn render(&self, req: Request) -> Result<Seq<char>, SingleFmtErrorModel> {
        render_integer(false, *self as nat, req)
    }

    fn format(
        &self,
        full_name: &[String],
        name: &[String],
        _args: &[String],
        flags: &[char],
        options: &NameMap<String>,
    ) -> (r: Result<String, SingleFmtError>) {
        format_integer(false, *self as u128, full_name, name, flags, options)
    }
}

/// This instance is aware of the following flags:
/// * `+`, which adds a leading plus sign;
/// * `b`, which makes the output binary;
/// * `o`, which makes the output octal;
/// * `p`, which in combination with `b`, `o` or `x` adds a base prefix to
///   the output;
/// * `x`, which makes the output hexadecimal.
/// Common and common numeric options are recognised.
impl Fmt for u16 {
    open spec fn render(&self, req: Request) -> Result<Seq<char>, SingleFmtErrorModel> {
        render_integer(false, *self as nat, req)
    }

    fn format(
        &self,
        full_name: &[String],
        name: &[String],
        _args: &[String],
        flags: &[char],
        options: &NameMap<String>,
    ) -> (r: Result<String, SingleFmtError>) {
        format_integer(false, *self as u128, full_name, name, flags, options)
    }
}

/// This instance is aware of the following flags:
/// * `+`, which adds a leading plus sign;
/// * `b`, which makes the output binary;
/// * `o`, which makes the output octal;
/// * `p`, which in combination with `b`, `o` or `x` adds a base prefix to
///   the output;
/// * `x`, which makes the output hexadecimal.
/// Common and common numeric options are recognised.
impl Fmt for u32 {
    open spec fn render(&self, req: Request) -> Result<Seq<char>, SingleFmtErrorModel> {
        render_integer(false, *self as nat, req)
    }

    fn format(
        &self,
        full_name: &[String],
        name: &[String],
        _args: &[String],
        flags: &[char],
        options: &NameMap<String>,
    ) -> (r: Result<String, SingleFmtError>) {
        format_integer(false, *self as u128, full_name, name, flags, options)
    }
}

/// This instance is aware of the following flags:
/// * `+`, which adds a leading plus sign;
/// * `b`, which makes the output binary;
/// * `o`, which makes the output octal;
/// * `p`, which in combination with `b`, `o` or `x` adds a base prefix to
///   the output;
/// * `x`, which makes the output hexadecimal.
/// Common and common numeric options are recognised.
impl Fmt for u64 {
    open spec fn render(&self, req: Request) -> Result<Seq<char>, SingleFmtErrorModel> {
        render_integer(false, *self as nat, req)
    }

    fn format(
        &self,
        full_name: &[String],
        name: &[String],
        _args: &[String],
        flags: &[char],
        options: &NameMap<String>,
    ) -> (r: Result<String, SingleFmtError>) {
        format_integer(false, *self as u128, full_name, name, flags, options)
    }
}

/// This instance is aware of the following flags:
/// * `+`, which adds a leading plus sign;
/// * `b`, which makes the output binary;
/// * `o`, which makes the output octal;
/// * `p`, which in combination with `b`, `o` or `x` adds a base prefix to
///   the output;
/// * `x`, which makes the output hexadecimal.
/// Common and common numeric options are recognised.
impl Fmt for u128 {
    open spec fn render(&self, req: Request) -> Result<Seq<char>, SingleFmtErrorModel> {
        render_integer(false, *self as nat, req)
    }

    fn format(
        &self,
        full_name: &[String],
        name: &[String],
        _args: &[String],
        flags: &[char],
        options: &NameMap<String>,
    ) -> (r: Result<String, SingleFmtError>) {
        format_integer(false, *self, full_name, name, flags, options)
    }
}

/// This instance is aware of the following flags:
/// * `+`, which adds a leading plus sign;
/// * `b`, which makes the output binary;
/// * `o`, which makes the output octal;
/// * `p`, which in combination with `b`, `o` or `x` adds a base prefix to
///   the output;
/// * `x`, which makes the output hexadecimal.
/// Common and common numeric options are recognised.
impl Fmt for usize {
    open spec fn render(&self, req: Request) -> Result<Seq<char>, SingleFmtErrorModel> {
        render_integer(false, *self as nat, req)
    }

    fn format(
        &self,
        full_name: &[String],
        name: &[String],
        _args: &[String],
        flags: &[char],
        options: &NameMap<String>,
    ) -> (r: Result<String, SingleFmtError>) {
        format_integer(false, *self as u128, full_name, name, flags, options)
    }
}

} // verus!
