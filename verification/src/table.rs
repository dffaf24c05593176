//! Format tables, and the engine that renders pieces against a table.

use vstd::prelude::*;
use vstd::slice::slice_subrange;
use crate::error::{
    lift_leaf, lift_parse, result_view, FormattingError, FormattingErrorModel, SingleFmtErrorModel,
};
use crate::fmt::{request, BoxOrRef, Fmt, Request};
use crate::grammar::parse_spec;
use crate::name_map::{texts, NameMap};
use crate::parse::parse;
use crate::piece::{
    args_view, lemma_placeholder_view, options_view, pieces_view, Piece, PieceModel,
};
use crate::text::strings_view;
use crate::util::{dotted, join_name};

verus! {

/// A table that maps the root names of placeholders to formattable values.
pub trait FormatTable {
    /// Whether the table has a value for `name`.
    spec fn resolves(&self, name: Seq<char>) -> bool;

    /// What the value for `name` renders for a request.
    spec fn render_entry(&self, name: Seq<char>, req: Request) -> Result<Seq<char>, SingleFmtErrorModel>;

    /// Looks up the value for `name`. That there is none is no error here.
    fn get_fmt<'a, 'b>(&'a self, name: &'b str) -> (r: Option<BoxOrRef<'a, dyn Fmt>>)
        ensures
            r is Some == self.resolves(name@),
            r matches Some(f) ==> forall|req: Request| #[trigger]
                f.target().render(req) == self.render_entry(name@, req),
    ;
}

/// The entry point: `format` on every format table.
///
/// The method stands in a trait of its own, implemented for every table,
/// because its contract speaks of `format_spec`, which is generic over
/// `FormatTable`.
pub trait FormatTableExt {
    /// Renders the format string `input` against this table.
    fn format(&self, input: &str) -> Result<String, FormattingError>;
}

impl<T: FormatTable + ?Sized> FormatTableExt for T {
    /// Renders the format string `input` against this table: the rendered
    /// pieces in order, or the first error, be it of the parse or of a
    /// piece.
    fn format(&self, input: &str) -> (r: Result<String, FormattingError>)
        ensures
            result_view(r) == format_spec(self, input@),
    {
        let pieces = match parse(input) {
            Err(e) => {
                return Err(FormattingError::from(e));
            },
            Ok(pieces) => pieces,
        };
        format_pieces(self, &pieces)
    }
}

/// What `table` renders for the format string `input`.
pub open spec fn format_spec<T: FormatTable + ?Sized>(table: &T, input: Seq<char>) -> Result<
    Seq<char>,
    FormattingErrorModel,
> {
    match parse_spec(input) {
        Err(e) => Err(lift_parse(e)),
        Ok(pieces) => render_pieces(table, pieces),
    }
}

/// What `table` renders for one piece.
///
/// A literal renders as its text. A placeholder whose root name the table
/// does not resolve fails with the full dotted name. Otherwise the
/// arguments are rendered, then the option values, and the table's value
/// for the root name renders the request; its error is lifted.
pub open spec fn render_piece<T: FormatTable + ?Sized>(table: &T, piece: PieceModel) -> Result<
    Seq<char>,
    FormattingErrorModel,
>
    decreases piece,
{
    match piece {
        PieceModel::Literal(text) => Ok(text),
        PieceModel::Placeholder { name, args, flags, options } => {
            if name.len() == 0 || !table.resolves(name[0]) {
                Err(FormattingErrorModel::UnknownFmt(dotted(name)))
            } else {
                match render_args(table, args) {
                    Err(e) => Err(e),
                    Ok(rendered_args) => match render_options(table, options) {
                        Err(e) => Err(e),
                        Ok(rendered_options) => match table.render_entry(
                            name[0],
                            Request {
                                full_name: name,
                                name: name.skip(1),
                                args: rendered_args,
                                flags,
                                options: rendered_options,
                            },
                        ) {
                            Err(e) => Err(lift_leaf(e)),
                            Ok(text) => Ok(text),
                        },
                    },
                }
            }
        },
    }
}

/// What `table` renders for a sequence of pieces: the texts of the pieces
/// in order, or the error of the first piece that fails.
pub open spec fn render_pieces<T: FormatTable + ?Sized>(table: &T, pieces: Seq<PieceModel>) -> Result<
    Seq<char>,
    FormattingErrorModel,
>
    decreases pieces,
{
    if pieces.len() == 0 {
        Ok(Seq::empty())
    } else {
        match render_pieces(table, pieces.drop_last()) {
            Err(e) => Err(e),
            Ok(head) => match render_piece(table, pieces.last()) {
                Err(e) => Err(e),
                Ok(text) => Ok(head + text),
            },
        }
    }
}

/// The rendered arguments, or the error of the first that fails.
pub open spec fn render_args<T: FormatTable + ?Sized>(table: &T, args: Seq<Seq<PieceModel>>) -> Result<
    Seq<Seq<char>>,
    FormattingErrorModel,
>
    decreases args,
{
    if args.len() == 0 {
        Ok(Seq::empty())
    } else {
        match render_args(table, args.drop_last()) {
            Err(e) => Err(e),
            Ok(head) => match render_pieces(table, args.last()) {
                Err(e) => Err(e),
                Ok(text) => Ok(head.push(text)),
            },
        }
    }
}

/// The rendered options, or the error of the first that fails.
pub open spec fn render_options<T: FormatTable + ?Sized>(
    table: &T,
    options: Seq<(Seq<char>, Seq<PieceModel>)>,
) -> Result<Map<Seq<char>, Seq<char>>, FormattingErrorModel>
    decreases options,
{
    if options.len() == 0 {
        Ok(Map::empty())
    } else {
        match render_options(table, options.drop_last()) {
            Err(e) => Err(e),
            Ok(head) => match render_pieces(table, options.last().1) {
                Err(e) => Err(e),
                Ok(text) => Ok(head.insert(options.last().0, text)),
            },
        }
    }
}

/// Once a piece fails, the whole sequence fails with its error.
pub proof fn lemma_render_pieces_error<T: FormatTable + ?Sized>(table: &T, pieces: Seq<PieceModel>, k: int)
    requires
        0 <= k <= pieces.len(),
        render_pieces(table, pieces.take(k)) is Err,
    ensures
        render_pieces(table, pieces) == render_pieces(table, pieces.take(k)),
    decreases pieces.len() - k,
{
    if k < pieces.len() {
        assert(pieces.take(k + 1).drop_last() =~= pieces.take(k));
        lemma_render_pieces_error(table, pieces, k + 1);
    } else {
        assert(pieces.take(k) =~= pieces);
    }
}

/// Once an argument fails, the arguments fail with its error.
pub proof fn lemma_render_args_error<T: FormatTable + ?Sized>(table: &T, args: Seq<Seq<PieceModel>>, k: int)
    requires
        0 <= k <= args.len(),
        render_args(table, args.take(k)) is Err,
    ensures
        render_args(table, args) == render_args(table, args.take(k)),
    decreases args.len() - k,
{
    if k < args.len() {
        assert(args.take(k + 1).drop_last() =~= args.take(k));
        lemma_render_args_error(table, args, k + 1);
    } else {
        assert(args.take(k) =~= args);
    }
}

/// Once an option fails, the options fail with its error.
pub proof fn lemma_render_options_error<T: FormatTable + ?Sized>(
    table: &T,
    options: Seq<(Seq<char>, Seq<PieceModel>)>,
    k: int,
)
    requires
        0 <= k <= options.len(),
        render_options(table, options.take(k)) is Err,
    ensures
        render_options(table, options) == render_options(table, options.take(k)),
    decreases options.len() - k,
{
    if k < options.len() {
        assert(options.take(k + 1).drop_last() =~= options.take(k));
        lemma_render_options_error(table, options, k + 1);
    } else {
        assert(options.take(k) =~= options);
    }
}

/// Renders a sequence of pieces against `table`.
pub fn format_pieces<T: FormatTable + ?Sized>(table: &T, pieces: &Vec<Piece>) -> (r: Result<
    String,
    FormattingError,
>)
    ensures
        result_view(r) == render_pieces(table, pieces_view(pieces@)),
    decreases pieces,
{
    let ghost models = pieces_view(pieces@);
    let mut out = String::new();
    let mut i: usize = 0;
    while i < pieces.len()
        invariant
            i <= pieces@.len(),
            models == pieces_view(pieces@),
            render_pieces(table, models.take(i as int)) == Ok::<Seq<char>, FormattingErrorModel>(out@),
        decreases pieces.len() - i,
    {
        proof {
            assert(models.take(i + 1).drop_last() =~= models.take(i as int));
            assert(models.take(i + 1).last() == pieces@[i as int]@);
        }
        match format_one(table, &pieces[i]) {
            Err(e) => {
                proof {
                    lemma_render_pieces_error(table, models, i + 1);
                }
                return Err(e);
            },
            Ok(text) => {
                out.append(text.as_str());
            },
        }
        i += 1;
    }
    assert(models.take(pieces@.len() as int) =~= models);
    Ok(out)
}

/// Renders one piece against `table`.
#[verifier::loop_isolation(false)]
pub fn format_one<T: FormatTable + ?Sized>(table: &T, piece: &Piece) -> (r: Result<String, FormattingError>)
    ensures
        result_view(r) == render_piece(table, piece@),
    decreases piece,
{
    match piece {
        Piece::Literal(s) => Ok(s.clone()),
        Piece::Placeholder(name, args, flags, opts) => {
            proof {
                lemma_placeholder_view(*piece);
            }
            let ghost arg_models = args_view(args@);
            let ghost option_models = options_view(opts@);
            if name.len() == 0 {
                return Err(FormattingError::UnknownFmt(join_name(name.as_slice())));
            }
            let root = match table.get_fmt(name[0].as_str()) {
                None => {
                    return Err(FormattingError::UnknownFmt(join_name(name.as_slice())));
                },
                Some(root) => root,
            };
            let mut processed_args: Vec<String> = Vec::new();
            let mut i: usize = 0;
            assert(strings_view(processed_args@) =~= Seq::empty());
            while i < args.len()
                invariant
                    i <= args@.len(),
                    arg_models == args_view(args@),
                    render_args(table, arg_models.take(i as int)) == Ok::<
                        Seq<Seq<char>>,
                        FormattingErrorModel,
                    >(strings_view(processed_args@)),
                decreases args.len() - i,
            {
                proof {
                    assert(arg_models.take(i + 1).drop_last() =~= arg_models.take(i as int));
                    assert(arg_models.take(i + 1).last() == pieces_view(args@[i as int]@));
                }
                match format_pieces(table, &args[i]) {
                    Err(e) => {
                        proof {
                            lemma_render_args_error(table, arg_models, i + 1);
                        }
                        return Err(e);
                    },
                    Ok(text) => {
                        let ghost before = processed_args@;
                        processed_args.push(text);
                        assert(strings_view(processed_args@) =~= strings_view(before).push(text@));
                    },
                }
                i += 1;
            }
            assert(arg_models.take(args@.len() as int) =~= arg_models);
            let mut processed_opts: NameMap<String> = NameMap::new();
            let mut j: usize = 0;
            assert(texts(processed_opts@) =~= Map::empty());
            while j < opts.len()
                invariant
                    j <= opts@.len(),
                    option_models == options_view(opts@),
                    render_options(table, option_models.take(j as int)) == Ok::<
                        Map<Seq<char>, Seq<char>>,
                        FormattingErrorModel,
                    >(texts(processed_opts@)),
                decreases opts.len() - j,
            {
                proof {
                    assert(option_models.take(j + 1).drop_last() =~= option_models.take(j as int));
                    assert(option_models.take(j + 1).last() == (
                        opts@[j as int].0@,
                        pieces_view(opts@[j as int].1@),
                    ));
                }
                match format_pieces(table, &opts[j].1) {
                    Err(e) => {
                        proof {
                            lemma_render_options_error(table, option_models, j + 1);
                        }
                        return Err(e);
                    },
                    Ok(text) => {
                        let ghost before = processed_opts@;
                        let key = opts[j].0.clone();
                        processed_opts.insert(key, text);
                        assert(texts(processed_opts@) =~= texts(before).insert(opts@[j as int].0@, text@));
                    },
                }
                j += 1;
            }
            assert(option_models.take(opts@.len() as int) =~= option_models);
            let rest = slice_subrange(name.as_slice(), 1, name.len());
            proof {
                assert(strings_view(rest@) =~= strings_view(name@).skip(1));
            }
            match root.format(
                name.as_slice(),
                rest,
                processed_args.as_slice(),
                flags.as_slice(),
                &processed_opts,
            ) {
                Err(e) => Err(FormattingError::from(e)),
                Ok(text) => Ok(text),
            }
        },
    }
}

} // verus!
