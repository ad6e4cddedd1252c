//! The scalar fields of a document: the data arrays attached to the polygons
//! of its working piece. A field is found by its name; of two arrays with
//! one name the first counts.

use crate::ieee::{same_value, widen};
use crate::vtk::model::{
    attribute_views, poly_data, with_cell, Attribute, AttributeView, BufferView, DataArray,
    Document, DocumentView, NumericBuffer, PieceView, PolyDataView, VtkError,
};
use crate::vtk::reader::{get_poly_data, get_poly_data_mut};
use vstd::prelude::*;
use vstd::slice::slice_to_vec;

verus! {

/// Whether an attribute is a data array of the given name.
pub open spec fn is_array_named(attribute: AttributeView, name: Seq<char>) -> bool {
    attribute matches AttributeView::DataArray { name: own, .. } && own == name
}

/// The position of the first data array of the given name at or after
/// `from`, or the length of the list when there is none.
pub open spec fn first_array(cell: Seq<AttributeView>, name: Seq<char>, from: int) -> int
    decreases cell.len() - from,
{
    if from >= cell.len() {
        cell.len() as int
    } else if is_array_named(cell[from], name) {
        from
    } else {
        first_array(cell, name, from + 1)
    }
}

/// Whether some data array has the given name.
pub open spec fn has_array(cell: Seq<AttributeView>, name: Seq<char>) -> bool {
    0 <= first_array(cell, name, 0) < cell.len()
}

/// The names of the data arrays, in the order of attachment.
pub open spec fn array_names(cell: Seq<AttributeView>) -> Seq<Seq<char>>
    decreases cell.len(),
{
    if cell.len() == 0 {
        Seq::empty()
    } else {
        match cell.last() {
            AttributeView::DataArray { name, .. } => array_names(cell.drop_last()).push(name),
            _ => array_names(cell.drop_last()),
        }
    }
}

/// The attributes without the first data array of the given name; all of
/// them when there is none.
pub open spec fn without_array(cell: Seq<AttributeView>, name: Seq<char>) -> Seq<AttributeView> {
    if has_array(cell, name) {
        cell.remove(first_array(cell, name, 0))
    } else {
        cell
    }
}

/// The attributes with a double-precision data array attached at the end.
pub open spec fn with_array(cell: Seq<AttributeView>, name: Seq<char>, data: Seq<u64>) -> Seq<
    AttributeView,
> {
    cell.push(AttributeView::DataArray { name, data: BufferView::Double(data) })
}

/// Whether `values` are the numbers of a buffer in double precision:
/// a double-precision buffer as it is, a single-precision buffer widened
/// value by value. An integer buffer has no such values.
pub open spec fn is_widened(buffer: BufferView, values: Seq<u64>) -> bool {
    match buffer {
        BufferView::Double(stored) => values == stored,
        BufferView::Single(stored) => values.len() == stored.len() && forall|i: int|
            0 <= i < stored.len() ==> same_value(#[trigger] stored[i], values[i]),
        BufferView::Integer => false,
    }
}

/// What reading the field `name` yields.
pub open spec fn is_field_read(
    document: DocumentView,
    name: Seq<char>,
    read: Result<Seq<u64>, VtkError>,
) -> bool {
    match poly_data(document) {
        Err(fault) => read == Err::<Seq<u64>, VtkError>(fault),
        Ok(piece) => if !has_array(piece.cell, name) {
            read == Err::<Seq<u64>, VtkError>(VtkError::FieldNotFound)
        } else {
            match piece.cell[first_array(piece.cell, name, 0)] {
                AttributeView::DataArray { data: BufferView::Integer, .. } => read == Err::<
                    Seq<u64>,
                    VtkError,
                >(VtkError::UnsupportedFieldType),
                AttributeView::DataArray { data, .. } => read.is_ok() && is_widened(
                    data,
                    read.unwrap(),
                ),
                _ => false,
            }
        },
    }
}

/// The views of a list of names.
pub open spec fn name_views(names: Seq<String>) -> Seq<Seq<char>> {
    Seq::new(names.len(), |i: int| names[i]@)
}

/// Copies double-precision values.
fn copy_values(stored: &Vec<u64>) -> (values: Vec<u64>)
    ensures
        values@ == stored@,
{
    let mut values: Vec<u64> = Vec::new();
    let mut i: usize = 0;
    while i < stored.len()
        invariant
            i <= stored@.len(),
            values@ == stored@.subrange(0, i as int),
        decreases stored@.len() - i,
    {
        values.push(stored[i]);
        assert(values@ =~= stored@.subrange(0, i + 1));
        i = i + 1;
    }
    assert(values@ =~= stored@);
    values
}

/// Widens single-precision values.
fn widen_values(stored: &Vec<u32>) -> (values: Vec<u64>)
    ensures
        is_widened(BufferView::Single(stored@), values@),
{
    let mut values: Vec<u64> = Vec::new();
    let mut i: usize = 0;
    while i < stored.len()
        invariant
            i <= stored@.len(),
            values@.len() == i,
            forall|j: int| 0 <= j < i ==> same_value(#[trigger] stored@[j], values@[j]),
        decreases stored@.len() - i,
    {
        values.push(widen(stored[i]));
        i = i + 1;
    }
    values
}

/// Finds the first data array of the given name.
fn find_array(cell: &Vec<Attribute>, name: &String) -> (at: usize)
    ensures
        at == first_array(attribute_views(cell@), name@, 0),
        at <= cell@.len(),
        at < cell@.len() ==> is_array_named(attribute_views(cell@)[at as int], name@),
{
    let mut i: usize = 0;
    while i < cell.len()
        invariant
            i <= cell@.len(),
            first_array(attribute_views(cell@), name@, i as int) == first_array(
                attribute_views(cell@),
                name@,
                0,
            ),
        decreases cell@.len() - i,
    {
        let found: bool = match &cell[i] {
            Attribute::DataArray(array) => array.name == *name,
            _ => false,
        };
        assert(found == is_array_named(attribute_views(cell@)[i as int], name@));
        if found {
            return i;
        }
        i = i + 1;
    }
    i
}

/// The operations on the scalar fields of a document.
pub struct FieldManager;

impl FieldManager {
    /// Reads a buffer in double precision.
    pub fn convert_to_f64(buffer: &NumericBuffer) -> (values: Result<Vec<u64>, VtkError>)
        ensures
            match values {
                Ok(read) => is_widened(buffer@, read@),
                Err(fault) => fault == VtkError::UnsupportedFieldType && buffer@
                    == BufferView::Integer,
            },
    {
        match buffer {
            NumericBuffer::Double(stored) => Ok(copy_values(stored)),
            NumericBuffer::Single(stored) => Ok(widen_values(stored)),
            NumericBuffer::Integer => Err(VtkError::UnsupportedFieldType),
        }
    }

    /// Reads the values of a field, in double precision.
    pub fn get_field(vtk: &Document, field_name: &str) -> (values: Result<Vec<u64>, VtkError>)
        ensures
            is_field_read(
                vtk@,
                field_name@,
                match values {
                    Ok(read) => Ok(read@),
                    Err(fault) => Err(fault),
                },
            ),
    {
        let poly_data = match get_poly_data(vtk) {
            Ok(piece) => piece,
            Err(fault) => {
                return Err(fault);
            },
        };
        let name: String = field_name.to_owned();
        let at: usize = find_array(&poly_data.cell, &name);
        if at >= poly_data.cell.len() {
            return Err(VtkError::FieldNotFound);
        }
        assert(attribute_views(poly_data.cell@)[at as int] == poly_data.cell@[at as int]@);
        match &poly_data.cell[at] {
            Attribute::DataArray(array) => Self::convert_to_f64(&array.data),
            _ => Err(VtkError::FieldNotFound),
        }
    }

    /// Lists the names of the fields, in the order of attachment.
    pub fn list_fields(vtk: &Document) -> (names: Result<Vec<String>, VtkError>)
        ensures
            match poly_data(vtk@) {
                Ok(piece) => names.is_ok() && name_views(names.unwrap()@) == array_names(
                    piece.cell,
                ),
                Err(fault) => names == Err::<Vec<String>, VtkError>(fault),
            },
    {
        let poly_data = match get_poly_data(vtk) {
            Ok(piece) => piece,
            Err(fault) => {
                return Err(fault);
            },
        };
        let ghost cell = attribute_views(poly_data.cell@);
        let mut names: Vec<String> = Vec::new();
        let mut i: usize = 0;
        assert(cell.subrange(0, 0) =~= Seq::<AttributeView>::empty());
        assert(name_views(names@) =~= array_names(cell.subrange(0, 0)));
        while i < poly_data.cell.len()
            invariant
                i <= poly_data.cell@.len(),
                cell == attribute_views(poly_data.cell@),
                name_views(names@) == array_names(cell.subrange(0, i as int)),
            decreases poly_data.cell@.len() - i,
        {
            let ghost before = names@;
            proof {
                let next = cell.subrange(0, i + 1);
                assert(next.drop_last() =~= cell.subrange(0, i as int));
                assert(next.last() == poly_data.cell@[i as int]@);
            }
            match &poly_data.cell[i] {
                Attribute::DataArray(array) => {
                    names.push(array.name.clone());
                    assert(name_views(names@) =~= name_views(before).push(array.name@));
                },
                _ => {},
            }
            i = i + 1;
        }
        assert(cell.subrange(0, i as int) =~= cell);
        Ok(names)
    }

    /// Finds the position of a field among the attributes of the polygons:
    /// that of the first data array of the given name, if there is one.
    pub fn field_position(vtk: &Document, field_name: &str) -> (position: Result<
        Option<usize>,
        VtkError,
    >)
        ensures
            match poly_data(vtk@) {
                Ok(piece) => position == Ok::<Option<usize>, VtkError>(
                    if has_array(piece.cell, field_name@) {
                        Some(first_array(piece.cell, field_name@, 0) as usize)
                    } else {
                        None
                    },
                ),
                Err(fault) => position == Err::<Option<usize>, VtkError>(fault),
            },
    {
        let poly_data = match get_poly_data(vtk) {
            Ok(piece) => piece,
            Err(fault) => {
                return Err(fault);
            },
        };
        let name: String = field_name.to_owned();
        let at: usize = find_array(&poly_data.cell, &name);
        if at < poly_data.cell.len() {
            Ok(Some(at))
        } else {
            Ok(None)
        }
    }

    /// Tells whether a field of the given name is attached.
    pub fn field_exists(vtk: &Document, field_name: &str) -> (exists: Result<bool, VtkError>)
        ensures
            match poly_data(vtk@) {
                Ok(piece) => exists == Ok::<bool, VtkError>(has_array(piece.cell, field_name@)),
                Err(fault) => exists == Err::<bool, VtkError>(fault),
            },
    {
        let poly_data = match get_poly_data(vtk) {
            Ok(piece) => piece,
            Err(fault) => {
                return Err(fault);
            },
        };
        let name: String = field_name.to_owned();
        let at: usize = find_array(&poly_data.cell, &name);
        Ok(at < poly_data.cell.len())
    }

    /// Detaches the first field of the given name. Where there is none the
    /// document stays as it is, and that is no failure.
    pub fn remove_field(vtk: &mut Document, field_name: &str) -> (removed: Result<(), VtkError>)
        ensures
            match poly_data(old(vtk)@) {
                Ok(piece) => removed.is_ok() && final(vtk)@ == with_cell(
                    old(vtk)@,
                    without_array(piece.cell, field_name@),
                ),
                Err(fault) => removed == Err::<(), VtkError>(fault) && final(vtk)@ == old(vtk)@,
            },
    {
        let poly_data = match get_poly_data_mut(vtk) {
            Ok(piece) => piece,
            Err(fault) => {
                return Err(fault);
            },
        };
        let ghost before = poly_data@;
        let name: String = field_name.to_owned();
        let at: usize = find_array(&poly_data.cell, &name);
        if at < poly_data.cell.len() {
            let ghost listed = poly_data.cell@;
            poly_data.cell.remove(at);
            assert(attribute_views(poly_data.cell@) =~= attribute_views(listed).remove(at as int));
        }
        assert(poly_data@ == (PolyDataView {
            points: before.points,
            polys: before.polys,
            cell: without_array(before.cell, field_name@),
        }));
        Ok(())
    }

    /// Attaches a field of double-precision values under a name that no
    /// field has yet.
    pub fn add_field(vtk: &mut Document, field_name: &str, data: &[u64]) -> (added: Result<
        (),
        VtkError,
    >)
        ensures
            match poly_data(old(vtk)@) {
                Ok(piece) => if has_array(piece.cell, field_name@) {
                    added == Err::<(), VtkError>(VtkError::FieldAlreadyExists) && final(vtk)@
                        == old(vtk)@
                } else {
                    added.is_ok() && final(vtk)@ == with_cell(
                        old(vtk)@,
                        with_array(piece.cell, field_name@, data@),
                    )
                },
                Err(fault) => added == Err::<(), VtkError>(fault) && final(vtk)@ == old(vtk)@,
            },
    {
        match Self::field_exists(vtk, field_name) {
            Ok(true) => {
                return Err(VtkError::FieldAlreadyExists);
            },
            Ok(false) => {},
            Err(fault) => {
                return Err(fault);
            },
        }
        let poly_data = match get_poly_data_mut(vtk) {
            Ok(piece) => piece,
            Err(fault) => {
                return Err(fault);
            },
        };
        let ghost before = poly_data@;
        let ghost listed = poly_data.cell@;
        let data_array = DataArray {
            name: field_name.to_owned(),
            data: NumericBuffer::Double(slice_to_vec(data)),
        };
        poly_data.cell.push(Attribute::DataArray(data_array));
        assert(attribute_views(poly_data.cell@) =~= with_array(
            attribute_views(listed),
            field_name@,
            data@,
        ));
        assert(poly_data@ == (PolyDataView {
            points: before.points,
            polys: before.polys,
            cell: with_array(before.cell, field_name@, data@),
        }));
        Ok(())
    }
}

/// Where no data array from `from` on has the name, the search runs to the
/// end of the list; attached at the end, such an array is found there.
proof fn lemma_first_array_at_end(
    cell: Seq<AttributeView>,
    name: Seq<char>,
    data: Seq<u64>,
    from: int,
)
    requires
        0 <= from <= cell.len(),
        first_array(cell, name, from) == cell.len(),
    ensures
        first_array(with_array(cell, name, data), name, from) == cell.len(),
    decreases cell.len() - from,
{
    let added = with_array(cell, name, data);
    if from < cell.len() {
        lemma_first_array_bounds(cell, name, from + 1);
        assert(added[from] == cell[from]);
        lemma_first_array_at_end(cell, name, data, from + 1);
    }
}

/// The search ends between its start and the end of the list.
proof fn lemma_first_array_bounds(cell: Seq<AttributeView>, name: Seq<char>, from: int)
    requires
        0 <= from <= cell.len(),
    ensures
        from <= first_array(cell, name, from) <= cell.len(),
    decreases cell.len() - from,
{
    if from < cell.len() && !is_array_named(cell[from], name) {
        lemma_first_array_bounds(cell, name, from + 1);
    }
}

/// A field that is attached under a new name exists, and is the last
/// attribute; detaching it again leaves the attributes as they were, without
/// a field of that name.
pub proof fn lemma_attached_field_round_trip(
    cell: Seq<AttributeView>,
    name: Seq<char>,
    data: Seq<u64>,
)
    requires
        !has_array(cell, name),
    ensures
        has_array(with_array(cell, name, data), name),
        first_array(with_array(cell, name, data), name, 0) == cell.len(),
        without_array(with_array(cell, name, data), name) == cell,
        !has_array(without_array(with_array(cell, name, data), name), name),
{
    lemma_first_array_bounds(cell, name, 0);
    lemma_first_array_at_end(cell, name, data, 0);
    assert(with_array(cell, name, data).remove(cell.len() as int) =~= cell);
}

/// In a document with a working piece and no field `name`: once the field
/// is added it exists and reads back exactly the values that were given;
/// once it is removed again it is absent, and the document is as it was.
pub proof fn lemma_field_round_trip(document: DocumentView, name: Seq<char>, data: Seq<u64>)
    requires
        poly_data(document).is_ok(),
        !has_array(poly_data(document).unwrap().cell, name),
    ensures
        ({
            let cell = poly_data(document).unwrap().cell;
            let added = with_cell(document, with_array(cell, name, data));
            let removed = with_cell(added, without_array(with_array(cell, name, data), name));
            &&& poly_data(added).is_ok()
            &&& poly_data(added).unwrap().cell == with_array(cell, name, data)
            &&& has_array(poly_data(added).unwrap().cell, name)
            &&& is_field_read(added, name, Ok(data))
            &&& forall|other: Result<Seq<u64>, VtkError>|
                is_field_read(added, name, other) ==> other == Ok::<Seq<u64>, VtkError>(data)
            &&& removed == document
            &&& !has_array(poly_data(removed).unwrap().cell, name)
        }),
{
    let cell = poly_data(document).unwrap().cell;
    let added = with_cell(document, with_array(cell, name, data));
    lemma_attached_field_round_trip(cell, name, data);
    let removed = with_cell(added, cell);
    match document {
        DocumentView::PolyData { pieces } => {
            let piece = poly_data(document).unwrap();
            let grown = PolyDataView {
                points: piece.points,
                polys: piece.polys,
                cell: with_array(cell, name, data),
            };
            let restored = PolyDataView { points: piece.points, polys: piece.polys, cell };
            assert(restored == piece);
            let added_pieces = pieces.update(0, PieceView::Inline(grown));
            assert(added == DocumentView::PolyData { pieces: added_pieces });
            assert(poly_data(added) == Ok::<PolyDataView, VtkError>(grown));
            assert(added_pieces.update(0, PieceView::Inline(restored)) =~= pieces);
            assert(removed == document);
        },
        DocumentView::Other => {},
    }
}

} // verus!
