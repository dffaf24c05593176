//! The error taxonomy: structural errors found while parsing, semantic errors
//! reported by a single formattable value, and the aggregate error that
//! `format` returns.

use vstd::prelude::*;
use vstd::std_specs::convert::FromSpecImpl;

verus! {

/// A malformed format string. Each variant carries the offending raw text.
#[derive(Debug, PartialEq)]
pub enum ParseError {
    /// A placeholder name with an empty segment, or an escape inside a name.
    EmptyNameSegment(String),
    /// An argument list that is not closed before the placeholder ends.
    UnterminatedArgumentList(String),
    /// A placeholder whose closing brace is never found.
    UnterminatedPlaceholder(String),
}

/// Errors that happen in individual `Fmt`s.
#[derive(Debug, PartialEq)]
pub enum SingleFmtError {
    /// A flag that the `Fmt` does not know how to handle.
    UnknownFlag(char),
    /// An option that the `Fmt` does not know how to handle.
    UnknownOption(String),
    /// An option (first field) with an invalid value (second field).
    InvalidOptionValue(String, String),
    /// A `Fmt` that only holds other `Fmt`s was used directly. Contains the
    /// full path of the placeholder.
    NamespaceOnlyFmt(String),
    /// A `Fmt` does not contain the requested sub-`Fmt`. Contains the full
    /// path of the placeholder.
    UnknownSubfmt(String),
}

/// Any error that can happen during formatting.
#[derive(Debug, PartialEq)]
pub enum FormattingError {
    /// A placeholder has an empty name segment. Contains the offending name.
    EmptyName(String),
    /// An argument list is not closed. Contains the offending text.
    UnterminatedArgumentList(String),
    /// A placeholder is not terminated. Contains the offending text.
    UnterminatedPlaceholder(String),
    /// A `SingleFmtError::UnknownFlag` is propagated as this.
    UnknownFlag(char),
    /// A `SingleFmtError::UnknownOption` is propagated as this.
    UnknownOption(String),
    /// A `SingleFmtError::InvalidOptionValue` is propagated as this.
    InvalidOptionValue(String, String),
    /// A `SingleFmtError::NamespaceOnlyFmt` is propagated as this.
    NamespaceOnlyFmt(String),
    /// The requested `Fmt` does not exist in the format table; a
    /// `SingleFmtError::UnknownSubfmt` is also propagated as this. Contains
    /// the full path of the placeholder.
    UnknownFmt(String),
}

/// What a `ParseError` says, with texts as character sequences.
pub enum ParseErrorModel {
    EmptyNameSegment(Seq<char>),
    UnterminatedArgumentList(Seq<char>),
    UnterminatedPlaceholder(Seq<char>),
}

/// What a `SingleFmtError` says, with texts as character sequences.
pub enum SingleFmtErrorModel {
    UnknownFlag(char),
    UnknownOption(Seq<char>),
    InvalidOptionValue(Seq<char>, Seq<char>),
    NamespaceOnlyFmt(Seq<char>),
    UnknownSubfmt(Seq<char>),
}

/// What a `FormattingError` says, with texts as character sequences.
pub enum FormattingErrorModel {
    EmptyName(Seq<char>),
    UnterminatedArgumentList(Seq<char>),
    UnterminatedPlaceholder(Seq<char>),
    UnknownFlag(char),
    UnknownOption(Seq<char>),
    InvalidOptionValue(Seq<char>, Seq<char>),
    NamespaceOnlyFmt(Seq<char>),
    UnknownFmt(Seq<char>),
}

impl View for ParseError {
    type V = ParseErrorModel;

    open spec fn view(&self) -> ParseErrorModel {
        match self {
            ParseError::EmptyNameSegment(s) => ParseErrorModel::EmptyNameSegment(s@),
            ParseError::UnterminatedArgumentList(s) => ParseErrorModel::UnterminatedArgumentList(s@),
            ParseError::UnterminatedPlaceholder(s) => ParseErrorModel::UnterminatedPlaceholder(s@),
        }
    }
}

impl View for SingleFmtError {
    type V = SingleFmtErrorModel;

    open spec fn view(&self) -> SingleFmtErrorModel {
        match self {
            SingleFmtError::UnknownFlag(c) => SingleFmtErrorModel::UnknownFlag(*c),
            SingleFmtError::UnknownOption(s) => SingleFmtErrorModel::UnknownOption(s@),
            SingleFmtError::InvalidOptionValue(o, v) => SingleFmtErrorModel::InvalidOptionValue(o@, v@),
            SingleFmtError::NamespaceOnlyFmt(s) => SingleFmtErrorModel::NamespaceOnlyFmt(s@),
            SingleFmtError::UnknownSubfmt(s) => SingleFmtErrorModel::UnknownSubfmt(s@),
        }
    }
}

impl View for FormattingError {
    type V = FormattingErrorModel;

    open spec fn view(&self) -> FormattingErrorModel {
        match self {
            FormattingError::EmptyName(s) => FormattingErrorModel::EmptyName(s@),
            FormattingError::UnterminatedArgumentList(s) => FormattingErrorModel::UnterminatedArgumentList(s@),
            FormattingError::UnterminatedPlaceholder(s) => FormattingErrorModel::UnterminatedPlaceholder(s@),
            FormattingError::UnknownFlag(c) => FormattingErrorModel::UnknownFlag(*c),
            FormattingError::UnknownOption(s) => FormattingErrorModel::UnknownOption(s@),
            FormattingError::InvalidOptionValue(o, v) => FormattingErrorModel::InvalidOptionValue(o@, v@),
            FormattingError::NamespaceOnlyFmt(s) => FormattingErrorModel::NamespaceOnlyFmt(s@),
            FormattingError::UnknownFmt(s) => FormattingErrorModel::UnknownFmt(s@),
        }
    }
}

/// The aggregate error that stands for a leaf error: each kind keeps its
/// payload, and an unknown sub-`Fmt` becomes an unknown `Fmt`.
pub open spec fn lift_leaf(e: SingleFmtErrorModel) -> FormattingErrorModel {
    match e {
        SingleFmtErrorModel::UnknownFlag(c) => FormattingErrorModel::UnknownFlag(c),
        SingleFmtErrorModel::UnknownOption(s) => FormattingErrorModel::UnknownOption(s),
        SingleFmtErrorModel::InvalidOptionValue(o, v) => FormattingErrorModel::InvalidOptionValue(o, v),
        SingleFmtErrorModel::NamespaceOnlyFmt(s) => FormattingErrorModel::NamespaceOnlyFmt(s),
        SingleFmtErrorModel::UnknownSubfmt(s) => FormattingErrorModel::UnknownFmt(s),
    }
}

/// The aggregate error that stands for a parse error, payload unchanged.
pub open spec fn lift_parse(e: ParseErrorModel) -> FormattingErrorModel {
    match e {
        ParseErrorModel::EmptyNameSegment(s) => FormattingErrorModel::EmptyName(s),
        ParseErrorModel::UnterminatedArgumentList(s) => FormattingErrorModel::UnterminatedArgumentList(s),
        ParseErrorModel::UnterminatedPlaceholder(s) => FormattingErrorModel::UnterminatedPlaceholder(s),
    }
}

impl From<SingleFmtError> for FormattingError {
    fn from(err: SingleFmtError) -> (r: FormattingError)
        ensures
            r@ == lift_leaf(err@),
    {
        match err {
            SingleFmtError::UnknownFlag(c) => FormattingError::UnknownFlag(c),
            SingleFmtError::UnknownOption(s) => FormattingError::UnknownOption(s),
            SingleFmtError::InvalidOptionValue(opt, val) => FormattingError::InvalidOptionValue(opt, val),
            SingleFmtError::NamespaceOnlyFmt(s) => FormattingError::NamespaceOnlyFmt(s),
            SingleFmtError::UnknownSubfmt(s) => FormattingError::UnknownFmt(s),
        }
    }
}

impl FromSpecImpl<SingleFmtError> for FormattingError {
    open spec fn obeys_from_spec() -> bool {
        true
    }

    open spec fn from_spec(err: SingleFmtError) -> FormattingError {
        match err {
            SingleFmtError::UnknownFlag(c) => FormattingError::UnknownFlag(c),
            SingleFmtError::UnknownOption(s) => FormattingError::UnknownOption(s),
            SingleFmtError::InvalidOptionValue(opt, val) => FormattingError::InvalidOptionValue(opt, val),
            SingleFmtError::NamespaceOnlyFmt(s) => FormattingError::NamespaceOnlyFmt(s),
            SingleFmtError::UnknownSubfmt(s) => FormattingError::UnknownFmt(s),
        }
    }
}

impl From<ParseError> for FormattingError {
    fn from(err: ParseError) -> (r: FormattingError)
        ensures
            r@ == lift_parse(err@),
    {
        match err {
            ParseError::EmptyNameSegment(s) => FormattingError::EmptyName(s),
            ParseError::UnterminatedArgumentList(s) => FormattingError::UnterminatedArgumentList(s),
            ParseError::UnterminatedPlaceholder(s) => FormattingError::UnterminatedPlaceholder(s),
        }
    }
}

impl FromSpecImpl<ParseError> for FormattingError {
    open spec fn obeys_from_spec() -> bool {
        true
    }

    open spec fn from_spec(err: ParseError) -> FormattingError {
        match err {
            ParseError::EmptyNameSegment(s) => FormattingError::EmptyName(s),
            ParseError::UnterminatedArgumentList(s) => FormattingError::UnterminatedArgumentList(s),
            ParseError::UnterminatedPlaceholder(s) => FormattingError::UnterminatedPlaceholder(s),
        }
    }
}

/// `r`, with its text or its error as character sequences.
pub open spec fn leaf_result_view(r: Result<String, SingleFmtError>) -> Result<Seq<char>, SingleFmtErrorModel> {
    match r {
        Ok(s) => Ok(s@),
        Err(e) => Err(e@),
    }
}

/// `r`, with its text or its error as character sequences.
pub open spec fn result_view(r: Result<String, FormattingError>) -> Result<Seq<char>, FormattingErrorModel> {
    match r {
        Ok(s) => Ok(s@),
        Err(e) => Err(e@),
    }
}

} // verus!
