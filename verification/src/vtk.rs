//! Polygon-mesh documents: points, polygons and the scalar fields attached
//! to the polygons.

use vstd::prelude::*;

pub mod field_manager;
pub mod geometry;
pub mod model;
pub mod reader;

use field_manager::{
    array_names, has_array, is_field_read, name_views, with_array, without_array, FieldManager,
};
use geometry::{is_connectivity, GeometryExtractor};
use model::{poly_data, with_cell, BufferView, Document, DocumentView, VtkError};
use reader::VtkReader;

verus! {

/// A polygon-mesh document and the operations on it.
#[derive(Debug)]
pub struct VtpProcessor {
    reader: VtkReader,
}

impl View for VtpProcessor {
    type V = DocumentView;

    closed spec fn view(&self) -> DocumentView {
        self.reader@
    }
}

impl VtpProcessor {
    /// Takes charge of a document.
    pub fn new(vtk: Document) -> (processor: Self)
        ensures
            processor@ == vtk@,
    {
        VtpProcessor { reader: VtkReader::new(vtk) }
    }

    /// Hands the document back.
    pub fn into_vtk(self) -> (vtk: Document)
        ensures
            vtk@ == self@,
    {
        self.reader.into_vtk()
    }

    /// Reads the geometry: point coordinates in double precision, the point
    /// indices of all polygons, and the end of each polygon.
    pub fn geometry(&self) -> (geometry: Result<(Vec<u64>, Vec<usize>, Vec<usize>), VtkError>)
        ensures
            match poly_data(self@) {
                Err(fault) => geometry == Err::<(Vec<u64>, Vec<usize>, Vec<usize>), VtkError>(
                    fault,
                ),
                Ok(piece) => match geometry {
                    Ok((points, connectivity, offsets)) => field_manager::is_widened(
                        piece.points,
                        points@,
                    ) && is_connectivity(piece.polys, connectivity@, offsets@),
                    Err(fault) => fault == VtkError::UnsupportedPointFormat && piece.points
                        == BufferView::Integer,
                },
            },
    {
        GeometryExtractor::extract_geometry(self.reader.vtk())
    }

    /// Reads the values of a field, in double precision.
    pub fn field(&self, field_name: &str) -> (values: Result<Vec<u64>, VtkError>)
        ensures
            is_field_read(
                self@,
                field_name@,
                match values {
                    Ok(read) => Ok(read@),
                    Err(fault) => Err(fault),
                },
            ),
    {
        FieldManager::get_field(self.reader.vtk(), field_name)
    }

    /// Lists the names of the fields, in the order of attachment.
    pub fn list_fields(&self) -> (names: Result<Vec<String>, VtkError>)
        ensures
            match poly_data(self@) {
                Ok(piece) => names.is_ok() && name_views(names.unwrap()@) == array_names(
                    piece.cell,
                ),
                Err(fault) => names == Err::<Vec<String>, VtkError>(fault),
            },
    {
        FieldManager::list_fields(self.reader.vtk())
    }

    /// Finds the position of a field among the attributes of the polygons.
    pub fn field_position(&self, field_name: &str) -> (position: Result<Option<usize>, VtkError>)
        ensures
            match poly_data(self@) {
                Ok(piece) => position == Ok::<Option<usize>, VtkError>(
                    if has_array(piece.cell, field_name@) {
                        Some(field_manager::first_array(piece.cell, field_name@, 0) as usize)
                    } else {
                        None
                    },
                ),
                Err(fault) => position == Err::<Option<usize>, VtkError>(fault),
            },
    {
        FieldManager::field_position(self.reader.vtk(), field_name)
    }

    /// Tells whether a field of the given name is attached.
    pub fn field_exists(&self, field_name: &str) -> (exists: Result<bool, VtkError>)
        ensures
            match poly_data(self@) {
                Ok(piece) => exists == Ok::<bool, VtkError>(has_array(piece.cell, field_name@)),
                Err(fault) => exists == Err::<bool, VtkError>(fault),
            },
    {
        FieldManager::field_exists(self.reader.vtk(), field_name)
    }

    /// Detaches the first field of the given name and hands the document on;
    /// where there is none, the document is handed on as it is.
    pub fn remove_field(self, field_name: &str) -> (removed: Result<Self, VtkError>)
        ensures
            match poly_data(self@) {
                Ok(piece) => removed.is_ok() && removed.unwrap()@ == with_cell(
                    self@,
                    without_array(piece.cell, field_name@),
                ),
                Err(fault) => removed matches Err(returned) && returned == fault,
            },
    {
        let mut processor = self;
        match FieldManager::remove_field(processor.reader.vtk_mut(), field_name) {
            Ok(()) => Ok(processor),
            Err(fault) => Err(fault),
        }
    }

    /// Attaches a field of double-precision values under a name that no
    /// field has yet, and hands the document on.
    pub fn add_field(self, field_name: &str, data: &[u64]) -> (added: Result<Self, VtkError>)
        ensures
            match poly_data(self@) {
                Ok(piece) => if has_array(piece.cell, field_name@) {
                    added matches Err(returned) && returned == VtkError::FieldAlreadyExists
                } else {
                    added.is_ok() && added.unwrap()@ == with_cell(
                        self@,
                        with_array(piece.cell, field_name@, data@),
                    )
                },
                Err(fault) => added matches Err(returned) && returned == fault,
            },
    {
        let mut processor = self;
        match FieldManager::add_field(processor.reader.vtk_mut(), field_name, data) {
            Ok(()) => Ok(processor),
            Err(fault) => Err(fault),
        }
    }
}

} // verus!
