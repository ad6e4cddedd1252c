//! The parts of a polygon-mesh document that this library reads and
//! changes, and their mathematical views.
//!
//! A document holds a data set; a polygon data set holds pieces; an inline
//! piece holds the point coordinates, the polygons and the attributes of the
//! polygons. Coordinates and field values are IEEE-754 bit patterns, in the
//! precision in which the document stores them.

use vstd::prelude::*;

verus! {

/// Why a document could not be read or changed.
#[derive(Clone, Copy, Debug, PartialEq, Eq, Structural)]
pub enum VtkError {
    /// The data set is no polygon data set.
    ExpectedPolyData,
    /// The polygon data set has no piece.
    NoPieces,
    /// The first piece is not stored inline.
    ExpectedInlinePiece,
    /// No data array of the polygons has the name.
    FieldNotFound,
    /// A data array of the polygons has the name already.
    FieldAlreadyExists,
    /// The data array holds neither single nor double precision.
    UnsupportedFieldType,
    /// The points hold neither single nor double precision.
    UnsupportedPointFormat,
}

/// View of a numeric buffer.
pub enum BufferView {
    Double(Seq<u64>),
    Single(Seq<u32>),
    Integer,
}

/// A numeric buffer, by the encoding in which the document stores it.
#[derive(Debug)]
pub enum NumericBuffer {
    /// Double-precision bit patterns.
    Double(Vec<u64>),
    /// Single-precision bit patterns.
    Single(Vec<u32>),
    /// Any integer encoding; its contents are not kept.
    Integer,
}

impl View for NumericBuffer {
    type V = BufferView;

    open spec fn view(&self) -> BufferView {
        match self {
            NumericBuffer::Double(values) => BufferView::Double(values@),
            NumericBuffer::Single(values) => BufferView::Single(values@),
            NumericBuffer::Integer => BufferView::Integer,
        }
    }
}

/// View of an attribute.
pub enum AttributeView {
    DataArray { name: Seq<char>, data: BufferView },
    Field { name: Seq<char> },
}

/// A named array of values, one for each polygon.
#[derive(Debug)]
pub struct DataArray {
    pub name: String,
    pub data: NumericBuffer,
}

/// An attribute of the polygons of a piece.
#[derive(Debug)]
pub enum Attribute {
    /// A data array: a scalar field.
    DataArray(DataArray),
    /// A field attribute, an array of arrays. It is no scalar field,
    /// whatever its name.
    Field { name: String },
}

impl View for Attribute {
    type V = AttributeView;

    open spec fn view(&self) -> AttributeView {
        match self {
            Attribute::DataArray(array) => AttributeView::DataArray {
                name: array.name@,
                data: array.data@,
            },
            Attribute::Field { name } => AttributeView::Field { name: name@ },
        }
    }
}

/// The number of cells that a list in the legacy form holds from `at` on.
/// In that form each cell is a count followed by that many point indices;
/// the last cell may be cut short.
pub open spec fn legacy_cells(vertices: Seq<u32>, at: int) -> int
    decreases vertices.len() - at,
{
    if 0 <= at < vertices.len() {
        let next = at + 1 + vertices[at] as int;
        if next < vertices.len() {
            1 + legacy_cells(vertices, next)
        } else {
            1
        }
    } else {
        0
    }
}

/// Polygons in the legacy form, with the number of cells that the list
/// holds.
#[derive(Debug)]
pub struct LegacyCells {
    num_cells: u32,
    vertices: Vec<u32>,
}

impl LegacyCells {
    #[verifier::type_invariant]
    spec fn consistent(self) -> bool {
        legacy_cells(self.vertices@, 0) == self.num_cells
    }

    /// The number of cells.
    pub closed spec fn cell_count(&self) -> u32 {
        self.num_cells
    }

    /// The list: for each cell its length, then its point indices.
    pub closed spec fn cell_list(&self) -> Seq<u32> {
        self.vertices@
    }

    /// Takes a list in the legacy form, if it holds `num_cells` cells.
    pub fn new(num_cells: u32, vertices: Vec<u32>) -> (cells: Option<Self>)
        ensures
            cells.is_some() <==> legacy_cells(vertices@, 0) == num_cells,
            cells matches Some(taken) ==> taken.cell_count() == num_cells && taken.cell_list()
                == vertices@,
    {
        let len: usize = vertices.len();
        let mut at: usize = 0;
        let mut count: u64 = 0;
        while at < len
            invariant
                len == vertices@.len(),
                count <= at <= len,
                count + legacy_cells(vertices@, at as int) == legacy_cells(vertices@, 0),
            decreases len - at,
        {
            let length: u32 = vertices[at];
            if ((len - at - 1) as u64) < length as u64 {
                at = len;
            } else {
                at = at + 1 + length as usize;
            }
            count = count + 1;
        }
        if count == num_cells as u64 {
            Some(LegacyCells { num_cells, vertices })
        } else {
            None
        }
    }

    /// The number of cells.
    pub fn num_cells(&self) -> (count: u32)
        ensures
            count == self.cell_count(),
    {
        self.num_cells
    }

    /// The list: for each cell its length, then its point indices.
    pub fn vertices(&self) -> (list: &Vec<u32>)
        ensures
            list@ == self.cell_list(),
            legacy_cells(list@, 0) == self.cell_count(),
    {
        proof {
            use_type_invariant(self);
        }
        &self.vertices
    }
}

/// View of the polygons of a piece.
pub enum PolysView {
    Xml { connectivity: Seq<u64>, offsets: Seq<u64> },
    Legacy { num_cells: u32, vertices: Seq<u32> },
}

/// The polygons of a piece, in one of the two forms in which documents
/// hold them.
#[derive(Debug)]
pub enum Polys {
    /// The point indices of all polygons in one array, and for each polygon
    /// the index just past its end.
    Xml { connectivity: Vec<u64>, offsets: Vec<u64> },
    /// For each polygon its length, then its point indices.
    Legacy(LegacyCells),
}

impl View for Polys {
    type V = PolysView;

    open spec fn view(&self) -> PolysView {
        match self {
            Polys::Xml { connectivity, offsets } => PolysView::Xml {
                connectivity: connectivity@,
                offsets: offsets@,
            },
            Polys::Legacy(cells) => PolysView::Legacy {
                num_cells: cells.cell_count(),
                vertices: cells.cell_list(),
            },
        }
    }
}

/// View of an inline piece.
pub struct PolyDataView {
    pub points: BufferView,
    pub polys: Option<PolysView>,
    pub cell: Seq<AttributeView>,
}

/// An inline piece of a polygon data set.
#[derive(Debug)]
pub struct PolyDataPiece {
    /// Three coordinates for each point.
    pub points: NumericBuffer,
    /// The polygons, if the piece has any.
    pub polys: Option<Polys>,
    /// The attributes of the polygons, in the order of attachment.
    pub cell: Vec<Attribute>,
}

/// The views of a list of attributes.
pub open spec fn attribute_views(cell: Seq<Attribute>) -> Seq<AttributeView> {
    Seq::new(cell.len(), |i: int| cell[i]@)
}

impl View for PolyDataPiece {
    type V = PolyDataView;

    open spec fn view(&self) -> PolyDataView {
        PolyDataView {
            points: self.points@,
            polys: match self.polys {
                Some(polys) => Some(polys@),
                None => None,
            },
            cell: attribute_views(self.cell@),
        }
    }
}

/// View of a piece.
pub enum PieceView {
    Inline(PolyDataView),
    Source,
    Loaded,
}

/// A piece of a polygon data set.
#[derive(Debug)]
pub enum Piece {
    /// The piece is stored in the document.
    Inline(PolyDataPiece),
    /// The piece is a reference to another file.
    Source,
    /// The piece was loaded from another file.
    Loaded,
}

impl View for Piece {
    type V = PieceView;

    open spec fn view(&self) -> PieceView {
        match self {
            Piece::Inline(piece) => PieceView::Inline(piece@),
            Piece::Source => PieceView::Source,
            Piece::Loaded => PieceView::Loaded,
        }
    }
}

/// View of a document.
pub enum DocumentView {
    PolyData { pieces: Seq<PieceView> },
    Other,
}

/// The data set of a document.
#[derive(Debug)]
pub enum DataSet {
    /// A polygon data set and its pieces.
    PolyData { pieces: Vec<Piece> },
    /// Any other kind of data set.
    Other,
}

/// The views of a list of pieces.
pub open spec fn piece_views(pieces: Seq<Piece>) -> Seq<PieceView> {
    Seq::new(pieces.len(), |i: int| pieces[i]@)
}

impl View for DataSet {
    type V = DocumentView;

    open spec fn view(&self) -> DocumentView {
        match self {
            DataSet::PolyData { pieces } => DocumentView::PolyData { pieces: piece_views(pieces@) },
            DataSet::Other => DocumentView::Other,
        }
    }
}

/// A polygon-mesh document.
#[derive(Debug)]
pub struct Document {
    pub data: DataSet,
}

impl View for Document {
    type V = DocumentView;

    open spec fn view(&self) -> DocumentView {
        self.data@
    }
}

/// The piece that the library works on: the first piece of a polygon data
/// set, which has to be inline.
pub open spec fn poly_data(document: DocumentView) -> Result<PolyDataView, VtkError> {
    match document {
        DocumentView::PolyData { pieces } => if pieces.len() == 0 {
            Err(VtkError::NoPieces)
        } else {
            match pieces[0] {
                PieceView::Inline(piece) => Ok(piece),
                _ => Err(VtkError::ExpectedInlinePiece),
            }
        },
        DocumentView::Other => Err(VtkError::ExpectedPolyData),
    }
}

/// The document with its working piece replaced. A document without a
/// working piece stays as it is.
pub open spec fn with_piece(document: DocumentView, piece: PolyDataView) -> DocumentView {
    match document {
        DocumentView::PolyData { pieces } => if pieces.len() == 0 {
            document
        } else {
            match pieces[0] {
                PieceView::Inline(_) => DocumentView::PolyData {
                    pieces: pieces.update(0, PieceView::Inline(piece)),
                },
                _ => document,
            }
        },
        DocumentView::Other => document,
    }
}

/// The document with the polygon attributes of its working piece replaced.
pub open spec fn with_cell(document: DocumentView, cell: Seq<AttributeView>) -> DocumentView {
    match poly_data(document) {
        Ok(piece) => with_piece(
            document,
            PolyDataView { points: piece.points, polys: piece.polys, cell },
        ),
        Err(_) => document,
    }
}

} // verus!
