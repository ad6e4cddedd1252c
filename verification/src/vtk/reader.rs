//! Access to the piece of a document that the library works on.

use crate::vtk::model::{
    piece_views, poly_data, with_piece, DataSet, Document, DocumentView, Piece, PieceView,
    PolyDataPiece, PolyDataView, VtkError,
};
use vstd::prelude::*;

verus! {

/// A document in memory.
#[derive(Debug)]
pub struct VtkReader {
    vtk: Document,
}

impl VtkReader {
    /// Takes charge of a document.
    pub fn new(vtk: Document) -> (reader: Self)
        ensures
            reader@ == vtk@,
    {
        VtkReader { vtk }
    }

    /// The document.
    pub fn vtk(&self) -> (vtk: &Document)
        ensures
            vtk@ == self@,
    {
        &self.vtk
    }

    /// The document, to change it.
    pub fn vtk_mut(&mut self) -> (vtk: &mut Document)
        ensures
            vtk@ == old(self)@,
            final(self)@ == final(vtk)@,
    {
        &mut self.vtk
    }

    /// Hands the document back.
    pub fn into_vtk(self) -> (vtk: Document)
        ensures
            vtk@ == self@,
    {
        self.vtk
    }
}

impl View for VtkReader {
    type V = DocumentView;

    closed spec fn view(&self) -> DocumentView {
        self.vtk@
    }
}

/// Finds the working piece of a document: the first piece of a polygon data
/// set, which has to be inline.
pub fn get_poly_data(vtk: &Document) -> (piece: Result<&PolyDataPiece, VtkError>)
    ensures
        match piece {
            Ok(found) => poly_data(vtk@) == Ok::<PolyDataView, VtkError>(found@),
            Err(fault) => poly_data(vtk@) == Err::<PolyDataView, VtkError>(fault),
        },
{
    match &vtk.data {
        DataSet::PolyData { pieces } => {
            if pieces.len() == 0 {
                return Err(VtkError::NoPieces);
            }
            assert(piece_views(pieces@)[0] == pieces@[0]@);
            match &pieces[0] {
                Piece::Inline(data) => Ok(data),
                _ => Err(VtkError::ExpectedInlinePiece),
            }
        },
        DataSet::Other => Err(VtkError::ExpectedPolyData),
    }
}

/// Finds the working piece of a document, to change it.
pub fn get_poly_data_mut(vtk: &mut Document) -> (piece: Result<&mut PolyDataPiece, VtkError>)
    ensures
        match piece {
            Ok(found) => {
                &&& poly_data(old(vtk)@) == Ok::<PolyDataView, VtkError>(found@)
                &&& final(vtk)@ == with_piece(old(vtk)@, final(found)@)
            },
            Err(fault) => {
                &&& poly_data(old(vtk)@) == Err::<PolyDataView, VtkError>(fault)
                &&& final(vtk)@ == old(vtk)@
            },
        },
{
    match &mut vtk.data {
        DataSet::PolyData { pieces } => {
            if pieces.len() == 0 {
                return Err(VtkError::NoPieces);
            }
            let ghost before = pieces@;
            assert(piece_views(before)[0] == before[0]@);
            let inline: bool = match &pieces[0] {
                Piece::Inline(_) => true,
                _ => false,
            };
            if !inline {
                return Err(VtkError::ExpectedInlinePiece);
            }
            match &mut pieces[0] {
                Piece::Inline(data) => {
                    proof {
                        let after = before.update(0, Piece::Inline(*final(data)));
                        assert(piece_views(after) =~= piece_views(before).update(
                            0,
                            PieceView::Inline(final(data)@),
                        ));
                    }
                    Ok(data)
                },
                _ => Err(VtkError::ExpectedInlinePiece),
            }
        },
        DataSet::Other => Err(VtkError::ExpectedPolyData),
    }
}

} // verus!
