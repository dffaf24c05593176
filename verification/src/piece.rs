//! The parsed form of a format string: literal text and placeholders.

use vstd::prelude::*;
use crate::text::strings_view;

verus! {

/// One parsed unit of a format string.
#[derive(Debug, PartialEq)]
pub enum Piece {
    /// Text that is emitted unchanged.
    Literal(String),
    /// A request to render a named value: the dotted name split into its
    /// segments, the arguments, the flags, and the options in the order in
    /// which they were first written, no option name twice. Each argument
    /// and each option value is itself a sequence of pieces.
    Placeholder(Vec<String>, Vec<Vec<Piece>>, Vec<char>, Vec<(String, Vec<Piece>)>),
}

/// A `Piece` with its texts as character sequences.
pub enum PieceModel {
    Literal(Seq<char>),
    Placeholder {
        name: Seq<Seq<char>>,
        args: Seq<Seq<PieceModel>>,
        flags: Seq<char>,
        options: Seq<(Seq<char>, Seq<PieceModel>)>,
    },
}

impl View for Piece {
    type V = PieceModel;

    open spec fn view(&self) -> PieceModel
        decreases self,
    {
        match self {
            Piece::Literal(s) => PieceModel::Literal(s@),
            Piece::Placeholder(name, args, flags, options) => PieceModel::Placeholder {
                name: strings_view(name@),
                args: Seq::new(
                    args@.len(),
                    |i: int|
                        if 0 <= i < args@.len() {
                            pieces_view(args@[i]@)
                        } else {
                            Seq::empty()
                        },
                ),
                flags: flags@,
                options: Seq::new(
                    options@.len(),
                    |i: int|
                        if 0 <= i < options@.len() {
                            (options@[i].0@, pieces_view(options@[i].1@))
                        } else {
                            (Seq::empty(), Seq::empty())
                        },
                ),
            },
        }
    }
}

/// The models of a sequence of pieces.
pub open spec fn pieces_view(v: Seq<Piece>) -> Seq<PieceModel>
    decreases v,
{
    Seq::new(
        v.len(),
        |i: int|
            if 0 <= i < v.len() {
                v[i]@
            } else {
                PieceModel::Literal(Seq::empty())
            },
    )
}

/// The models of a sequence of arguments.
pub open spec fn args_view(v: Seq<Vec<Piece>>) -> Seq<Seq<PieceModel>> {
    Seq::new(v.len(), |i: int| pieces_view(v[i]@))
}

/// The models of a sequence of options.
pub open spec fn options_view(v: Seq<(String, Vec<Piece>)>) -> Seq<(Seq<char>, Seq<PieceModel>)> {
    Seq::new(v.len(), |i: int| (v[i].0@, pieces_view(v[i].1@)))
}

/// Whether a piece keeps the invariant of the data model: a placeholder
/// has a name, no segment of the name is empty, no option name occurs
/// twice, and the pieces of its arguments and option values keep the
/// invariant too.
pub open spec fn well_formed(piece: PieceModel) -> bool
    decreases piece,
{
    match piece {
        PieceModel::Literal(_) => true,
        PieceModel::Placeholder { name, args, flags, options } => {
            &&& name.len() > 0
            &&& forall|k: int| 0 <= k < name.len() ==> (#[trigger] name[k]).len() > 0
            &&& forall|i: int| 0 <= i < args.len() ==> all_well_formed(#[trigger] args[i])
            &&& forall|i: int| 0 <= i < options.len() ==> all_well_formed((#[trigger] options[i]).1)
            &&& distinct_keys(options)
        },
    }
}

/// Whether every piece of a sequence keeps the invariant of the data model.
pub open spec fn all_well_formed(pieces: Seq<PieceModel>) -> bool
    decreases pieces,
{
    forall|i: int| 0 <= i < pieces.len() ==> well_formed(#[trigger] pieces[i])
}

/// Whether no option name occurs twice.
pub open spec fn distinct_keys(options: Seq<(Seq<char>, Seq<PieceModel>)>) -> bool {
    forall|i: int, j: int|
        0 <= i < j < options.len() ==> (#[trigger] options[i]).0 != (#[trigger] options[j]).0
}

/// The model of a placeholder is made of the models of its parts.
pub proof fn lemma_placeholder_view(p: Piece)
    requires
        p is Placeholder,
    ensures
        p@ == (PieceModel::Placeholder {
            name: strings_view(p->Placeholder_0@),
            args: args_view(p->Placeholder_1@),
            flags: p->Placeholder_2@,
            options: options_view(p->Placeholder_3@),
        }),
{
    let m = p@;
    assert(m->args =~= args_view(p->Placeholder_1@));
    assert(m->options =~= options_view(p->Placeholder_3@));
}

/// Appending a piece appends its model.
pub proof fn lemma_pieces_view_push(v: Seq<Piece>, p: Piece)
    ensures
        pieces_view(v.push(p)) == pieces_view(v).push(p@),
{
    assert(pieces_view(v.push(p)) =~= pieces_view(v).push(p@));
}

} // verus!
