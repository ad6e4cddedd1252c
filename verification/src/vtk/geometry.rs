//! The geometry of a document: point coordinates and polygons.

use crate::vtk::field_manager::{is_widened, FieldManager};
use crate::vtk::model::{
    legacy_cells, poly_data, BufferView, Document, NumericBuffer, PolyDataPiece, Polys, PolysView,
    VtkError,
};
use crate::vtk::reader::get_poly_data;
use vstd::prelude::*;

verus! {

/// Whether `indices` are the stored indices, each taken as a `usize`.
pub open spec fn is_index_list(stored: Seq<u64>, indices: Seq<usize>) -> bool {
    indices.len() == stored.len() && forall|i: int|
        0 <= i < stored.len() ==> #[trigger] indices[i] == stored[i] as usize
}

/// The point indices of the cells that a list in the legacy form holds from
/// `at` on, cell after cell: every entry that is no length.
pub open spec fn legacy_indices(vertices: Seq<u32>, at: int) -> Seq<u64>
    decreases vertices.len() - at,
{
    if 0 <= at < vertices.len() {
        let next = at + 1 + vertices[at] as int;
        if next < vertices.len() {
            Seq::new(vertices[at] as nat, |k: int| vertices[at + 1 + k] as u64) + legacy_indices(
                vertices,
                next,
            )
        } else {
            Seq::new((vertices.len() - at - 1) as nat, |k: int| vertices[at + 1 + k] as u64)
        }
    } else {
        Seq::empty()
    }
}

/// For each cell that a list in the legacy form holds from `at` on, the
/// index just past its end among the point indices of all cells, where
/// `before` is the end of the cell before: the running sum of the lengths.
pub open spec fn legacy_ends(vertices: Seq<u32>, at: int, before: int) -> Seq<u64>
    decreases vertices.len() - at,
{
    if 0 <= at < vertices.len() {
        let end = before + vertices[at] as int;
        let next = at + 1 + vertices[at] as int;
        if next < vertices.len() {
            seq![end as u64] + legacy_ends(vertices, next, end)
        } else {
            seq![end as u64]
        }
    } else {
        Seq::empty()
    }
}

/// A list in the legacy form has one end for each of its cells, and every
/// entry that is no length is a point index.
pub proof fn lemma_legacy_lengths(vertices: Seq<u32>, at: int, before: int)
    requires
        0 <= at <= vertices.len(),
    ensures
        legacy_ends(vertices, at, before).len() == legacy_cells(vertices, at),
        legacy_indices(vertices, at).len() == vertices.len() - at - legacy_cells(vertices, at),
    decreases vertices.len() - at,
{
    if at < vertices.len() {
        let next = at + 1 + vertices[at] as int;
        if next < vertices.len() {
            lemma_legacy_lengths(vertices, next, before + vertices[at] as int);
        }
    }
}

/// Whether `connectivity` and `offsets` are those of the polygons of a
/// piece: both empty for a piece without polygons.
pub open spec fn is_connectivity(
    polys: Option<PolysView>,
    connectivity: Seq<usize>,
    offsets: Seq<usize>,
) -> bool {
    match polys {
        Some(PolysView::Xml { connectivity: stored, offsets: ends }) => is_index_list(
            stored,
            connectivity,
        ) && is_index_list(ends, offsets),
        Some(PolysView::Legacy { num_cells, vertices }) => is_index_list(
            legacy_indices(vertices, 0),
            connectivity,
        ) && is_index_list(legacy_ends(vertices, 0, 0), offsets),
        None => connectivity.len() == 0 && offsets.len() == 0,
    }
}

/// Takes stored indices as `usize`.
pub fn index_list(stored: &Vec<u64>) -> (indices: Vec<usize>)
    ensures
        is_index_list(stored@, indices@),
{
    let mut indices: Vec<usize> = Vec::new();
    let mut i: usize = 0;
    while i < stored.len()
        invariant
            i <= stored@.len(),
            indices@.len() == i,
            forall|j: int| 0 <= j < i ==> #[trigger] indices@[j] == stored@[j] as usize,
        decreases stored@.len() - i,
    {
        indices.push(stored[i] as usize);
        i = i + 1;
    }
    indices
}

/// Calls `vtkio::model::VertexNumbers::into_xml` on polygons in the legacy
/// form. That function walks the list once. It takes the first entry, and
/// each entry after a finished cell, as the length of the next cell: it adds
/// the length to a running sum and records the sum as the end of the cell.
/// Every other entry it records as a point index. It panics unless it met
/// exactly `num_cells` lengths, which the precondition asks for.
#[verifier::external_body]
fn legacy_into_xml(num_cells: u32, vertices: &Vec<u32>) -> (xml: (Vec<u64>, Vec<u64>))
    requires
        legacy_cells(vertices@, 0) == num_cells,
    ensures
        xml.0@ == legacy_indices(vertices@, 0),
        xml.1@ == legacy_ends(vertices@, 0, 0),
{
    vtkio::model::VertexNumbers::Legacy { num_cells, vertices: vertices.clone() }.into_xml()
}

/// The operations on the geometry of a document.
pub struct GeometryExtractor;

impl GeometryExtractor {
    /// Reads the geometry of the working piece: the point coordinates in
    /// double precision, three for each point; the point indices of all
    /// polygons; and for each polygon the index just past its end.
    pub fn extract_geometry(vtk: &Document) -> (geometry: Result<
        (Vec<u64>, Vec<usize>, Vec<usize>),
        VtkError,
    >)
        ensures
            match poly_data(vtk@) {
                Err(fault) => geometry == Err::<(Vec<u64>, Vec<usize>, Vec<usize>), VtkError>(
                    fault,
                ),
                Ok(piece) => match geometry {
                    Ok((points, connectivity, offsets)) => is_widened(piece.points, points@)
                        && is_connectivity(piece.polys, connectivity@, offsets@),
                    Err(fault) => fault == VtkError::UnsupportedPointFormat && piece.points
                        == BufferView::Integer,
                },
            },
    {
        let poly_data = match get_poly_data(vtk) {
            Ok(piece) => piece,
            Err(fault) => {
                return Err(fault);
            },
        };
        let points: Vec<u64> = match Self::extract_points(&poly_data.points) {
            Ok(points) => points,
            Err(fault) => {
                return Err(fault);
            },
        };
        let (connectivity, offsets) = Self::extract_connectivity(poly_data);
        Ok((points, connectivity, offsets))
    }

    /// Reads point coordinates in double precision.
    pub fn extract_points(points_buffer: &NumericBuffer) -> (points: Result<Vec<u64>, VtkError>)
        ensures
            match points {
                Ok(read) => is_widened(points_buffer@, read@),
                Err(fault) => fault == VtkError::UnsupportedPointFormat && points_buffer@
                    == BufferView::Integer,
            },
    {
        match FieldManager::convert_to_f64(points_buffer) {
            Ok(read) => Ok(read),
            Err(_) => Err(VtkError::UnsupportedPointFormat),
        }
    }

    /// Reads the polygons of a piece: nothing for a piece without polygons.
    pub fn extract_connectivity(poly_data: &PolyDataPiece) -> (polygons: (Vec<usize>, Vec<usize>))
        ensures
            is_connectivity(poly_data@.polys, polygons.0@, polygons.1@),
    {
        match &poly_data.polys {
            Some(Polys::Xml { connectivity, offsets }) => (
                index_list(connectivity),
                index_list(offsets),
            ),
            Some(Polys::Legacy(cells)) => {
                let (connectivity, offsets) = legacy_into_xml(cells.num_cells(), cells.vertices());
                (index_list(&connectivity), index_list(&offsets))
            },
            None => (Vec::new(), Vec::new()),
        }
    }
}

} // verus!
