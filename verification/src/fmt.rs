//! Formattable values.

use vstd::prelude::*;
use crate::error::{leaf_result_view, SingleFmtError, SingleFmtErrorModel};
use crate::name_map::{texts, NameMap};
use crate::text::strings_view;

verus! {

/// A text, as contracts speak of it.
pub type Text = Seq<char>;

/// What a formattable value renders for a request: a text or a failure.
pub type Rendered = Result<Text, SingleFmtErrorModel>;

/// What a placeholder asks of a formattable value.
pub struct Request {
    /// The full dotted name of the placeholder, split into its segments.
    pub full_name: Seq<Seq<char>>,
    /// The segments of the name that are still to be resolved.
    pub name: Seq<Seq<char>>,
    /// The rendered arguments.
    pub args: Seq<Seq<char>>,
    /// The flags.
    pub flags: Seq<char>,
    /// The rendered options.
    pub options: Map<Seq<char>, Seq<char>>,
}

/// The request that the arguments of `Fmt::format` make.
pub open spec fn request(
    full_name: Seq<String>,
    name: Seq<String>,
    args: Seq<String>,
    flags: Seq<char>,
    options: Map<Seq<char>, String>,
) -> Request {
    Request {
        full_name: strings_view(full_name),
        name: strings_view(name),
        args: strings_view(args),
        flags,
        options: texts(options),
    }
}

/// This trait drives the formatting of a single placeholder. The
/// placeholder's arguments, flags and options are passed to `format`.
///
/// A value that wraps other values takes the first segment of `name` as a
/// member's name and hands the request on to that member with the rest of
/// `name`; with an empty `name` it fails as a namespace, with an unknown
/// member as an unknown sub-`Fmt`.
pub trait Fmt {
    /// What this value renders for a request.
    spec fn render(&self, req: Request) -> Result<Seq<char>, SingleFmtErrorModel>;

    /// Renders this value.
    fn format(
        &self,
        full_name: &[String],
        name: &[String],
        args: &[String],
        flags: &[char],
        options: &NameMap<String>,
    ) -> (r: Result<String, SingleFmtError>)
        ensures
            leaf_result_view(r) == self.render(request(full_name@, name@, args@, flags@, options@)),
    ;
}

/// A reference to a formattable value renders as the value does.
impl<'a> Fmt for &'a dyn Fmt {
    open spec fn render(&self, req: Request) -> Result<Seq<char>, SingleFmtErrorModel> {
        (**self).render(req)
    }

    fn format(
        &self,
        full_name: &[String],
        name: &[String],
        args: &[String],
        flags: &[char],
        options: &NameMap<String>,
    ) -> (r: Result<String, SingleFmtError>) {
        (**self).format(full_name, name, args, flags, options)
    }
}

/// A boxed formattable value renders as the value does.
impl Fmt for Box<dyn Fmt> {
    open spec fn render(&self, req: Request) -> Result<Seq<char>, SingleFmtErrorModel> {
        (**self).render(req)
    }

    fn format(
        &self,
        full_name: &[String],
        name: &[String],
        args: &[String],
        flags: &[char],
        options: &NameMap<String>,
    ) -> (r: Result<String, SingleFmtError>) {
        (**self).format(full_name, name, args, flags, options)
    }
}

/// What a table lookup returns: a reference into the table, or a value made
/// for this lookup.
pub enum BoxOrRef<'a, T: ?Sized + 'a> {
    Boxed(Box<T>),
    Ref(&'a T),
}

impl<'a, T: ?Sized + 'a> BoxOrRef<'a, T> {
    /// The value that is held, in either form.
    pub open spec fn target(&self) -> &T {
        match self {
            BoxOrRef::Boxed(b) => &**b,
            BoxOrRef::Ref(r) => *r,
        }
    }
}

impl<'a, T: ?Sized + 'a> std::ops::Deref for BoxOrRef<'a, T> {
    type Target = T;

    fn deref(&self) -> (r: &T)
        ensures
            r == self.target(),
    {
        match self {
            BoxOrRef::Boxed(b) => &**b,
            BoxOrRef::Ref(r) => *r,
        }
    }
}

impl<'a, T: ?Sized + 'a> std::borrow::Borrow<T> for BoxOrRef<'a, T> {
    fn borrow(&self) -> &T
        returns
            self.target(),
    {
        match self {
            BoxOrRef::Boxed(b) => &**b,
            BoxOrRef::Ref(r) => *r,
        }
    }
}

} // verus!
