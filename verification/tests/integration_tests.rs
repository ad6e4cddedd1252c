use autofoam::vtk::field_manager::FieldManager;
use autofoam::vtk::geometry::GeometryExtractor;
use autofoam::vtk::model::{
    Attribute, DataArray, DataSet, Document, LegacyCells, NumericBuffer, Piece, PolyDataPiece,
    Polys, VtkError,
};
use autofoam::vtk::reader::{get_poly_data, get_poly_data_mut, VtkReader};
use autofoam::vtk::VtpProcessor;

fn buffer(data: &vtkio::model::IOBuffer) -> NumericBuffer {
    match data {
        vtkio::model::IOBuffer::F64(values) => {
            NumericBuffer::Double(values.iter().map(|x| x.to_bits()).collect())
        }
        vtkio::model::IOBuffer::F32(values) => {
            NumericBuffer::Single(values.iter().map(|x| x.to_bits()).collect())
        }
        _ => NumericBuffer::Integer,
    }
}

fn attribute(attr: &vtkio::model::Attribute) -> Attribute {
    match attr {
        vtkio::model::Attribute::DataArray(array) => Attribute::DataArray(DataArray {
            name: array.name.clone(),
            data: buffer(&array.data),
        }),
        vtkio::model::Attribute::Field { name, .. } => Attribute::Field { name: name.clone() },
    }
}

fn polys(source: &vtkio::model::VertexNumbers) -> Polys {
    match source {
        vtkio::model::VertexNumbers::XML {
            connectivity,
            offsets,
        } => Polys::Xml {
            connectivity: connectivity.clone(),
            offsets: offsets.clone(),
        },
        vtkio::model::VertexNumbers::Legacy {
            num_cells,
            vertices,
        } => Polys::Legacy(LegacyCells::new(*num_cells, vertices.clone()).unwrap()),
    }
}

fn piece(source: &vtkio::model::Piece<vtkio::model::PolyDataPiece>) -> Piece {
    match source {
        vtkio::model::Piece::Inline(data) => Piece::Inline(PolyDataPiece {
            points: buffer(&data.points),
            polys: data.polys.as_ref().map(polys),
            cell: data.data.cell.iter().map(attribute).collect(),
        }),
        vtkio::model::Piece::Source(..) => Piece::Source,
        vtkio::model::Piece::Loaded(..) => Piece::Loaded,
    }
}

fn document(vtk: &vtkio::Vtk) -> Document {
    Document {
        data: match &vtk.data {
            vtkio::model::DataSet::PolyData { pieces, .. } => DataSet::PolyData {
                pieces: pieces.iter().map(piece).collect(),
            },
            _ => DataSet::Other,
        },
    }
}

fn floats(values: Vec<u64>) -> Vec<f64> {
    values.into_iter().map(f64::from_bits).collect()
}

fn bits(values: &[f64]) -> Vec<u64> {
    values.iter().map(|v| v.to_bits()).collect()
}

fn create_test_vtp() -> VtpProcessor {
    let test_data = r#"<?xml version="1.0"?>
<VTKFile type="PolyData" version="1.0" byte_order="LittleEndian">
  <PolyData>
    <Piece NumberOfPoints="4" NumberOfPolys="1">
      <Points>
        <DataArray type="Float64" NumberOfComponents="3" format="ascii">
          0.0 0.0 0.0
          1.0 0.0 0.0
          1.0 1.0 0.0
          0.0 1.0 0.0
        </DataArray>
      </Points>
      <Polys>
        <DataArray type="Int32" Name="connectivity" format="ascii">
          0 1 2 3
        </DataArray>
        <DataArray type="Int32" Name="offsets" format="ascii">
          4
        </DataArray>
      </Polys>
      <CellData>
        <DataArray type="Float64" Name="test_field" NumberOfComponents="1" format="ascii">
          42.0
        </DataArray>
      </CellData>
    </Piece>
  </PolyData>
</VTKFile>"#;
    let vtk = vtkio::Vtk::parse_xml(test_data.as_bytes()).unwrap();
    VtpProcessor::new(document(&vtk))
}

fn sample_document() -> Document {
    Document {
        data: DataSet::PolyData {
            pieces: vec![Piece::Inline(PolyDataPiece {
                points: NumericBuffer::Single(vec![
                    0.0f32.to_bits(),
                    0.5f32.to_bits(),
                    (-2.0f32).to_bits(),
                ]),
                polys: None,
                cell: vec![
                    Attribute::Field {
                        name: "pressure".to_string(),
                    },
                    Attribute::DataArray(DataArray {
                        name: "pressure".to_string(),
                        data: NumericBuffer::Single(vec![1.5f32.to_bits(), 0.1f32.to_bits()]),
                    }),
                    Attribute::DataArray(DataArray {
                        name: "ids".to_string(),
                        data: NumericBuffer::Integer,
                    }),
                    Attribute::DataArray(DataArray {
                        name: "pressure".to_string(),
                        data: NumericBuffer::Double(vec![9.0f64.to_bits()]),
                    }),
                ],
            })],
        },
    }
}

#[test]
fn test_geometry_extraction() {
    let reader = create_test_vtp();

    let result = reader.geometry();
    assert!(result.is_ok());

    let (points, connectivity, offsets) = result.unwrap();
    assert_eq!(points.len(), 12); // 4 points * 3 coordinates
    assert_eq!(connectivity, vec![0, 1, 2, 3]);
    assert_eq!(offsets, vec![4]);
    assert_eq!(
        floats(points),
        vec![0.0, 0.0, 0.0, 1.0, 0.0, 0.0, 1.0, 1.0, 0.0, 0.0, 1.0, 0.0]
    );
}

#[test]
fn test_field_operations() {
    let reader = create_test_vtp();

    assert!(reader.field_exists("test_field").unwrap());
    assert!(!reader.field_exists("nonexistent_field").unwrap());

    let field_data = floats(reader.field("test_field").unwrap());
    assert_eq!(field_data, vec![42.0]);

    let fields = reader.list_fields().unwrap();
    assert!(fields.contains(&"test_field".to_string()));
}

#[test]
fn test_add_and_remove_field() {
    let reader = create_test_vtp();

    let new_data = vec![100.0];
    let reader = reader.add_field("new_field", &bits(&new_data)).unwrap();
    assert!(reader.field_exists("new_field").unwrap());

    let retrieved_data = floats(reader.field("new_field").unwrap());
    assert_eq!(retrieved_data, new_data);

    let reader = reader.remove_field("new_field").unwrap();
    assert!(!reader.field_exists("new_field").unwrap());
}

#[test]
fn test_error_handling() {
    let reader = create_test_vtp();
    let result = reader.field("nonexistent_field");
    assert!(result.is_err());
    assert_eq!(result.unwrap_err(), VtkError::FieldNotFound);
}

#[test]
fn test_add_existing_field_is_refused() {
    let reader = create_test_vtp();
    let result = reader.add_field("test_field", &bits(&[1.0]));
    assert_eq!(result.unwrap_err(), VtkError::FieldAlreadyExists);
}

#[test]
fn test_remove_absent_field_changes_nothing() {
    let reader = create_test_vtp();
    let reader = reader.remove_field("nonexistent_field").unwrap();
    assert_eq!(reader.list_fields().unwrap(), vec!["test_field".to_string()]);
    assert_eq!(floats(reader.field("test_field").unwrap()), vec![42.0]);
}

#[test]
fn test_fields_are_listed_in_order_of_attachment() {
    let reader = create_test_vtp()
        .add_field("b", &bits(&[2.0]))
        .unwrap()
        .add_field("a", &bits(&[1.0]))
        .unwrap();
    assert_eq!(
        reader.list_fields().unwrap(),
        vec!["test_field".to_string(), "b".to_string(), "a".to_string()]
    );
    let reader = reader.remove_field("test_field").unwrap();
    assert_eq!(
        reader.list_fields().unwrap(),
        vec!["b".to_string(), "a".to_string()]
    );
    let document = reader.into_vtk();
    assert_eq!(get_poly_data(&document).unwrap().cell.len(), 2);
}

#[test]
fn test_first_array_of_a_name_counts() {
    let mut document = sample_document();
    assert_eq!(
        FieldManager::list_fields(&document).unwrap(),
        vec![
            "pressure".to_string(),
            "ids".to_string(),
            "pressure".to_string()
        ]
    );
    assert_eq!(
        floats(FieldManager::get_field(&document, "pressure").unwrap()),
        vec![1.5, 0.1f32 as f64]
    );
    FieldManager::remove_field(&mut document, "pressure").unwrap();
    assert_eq!(
        floats(FieldManager::get_field(&document, "pressure").unwrap()),
        vec![9.0]
    );
    assert!(matches!(
        get_poly_data(&document).unwrap().cell[0],
        Attribute::Field { .. }
    ));
    FieldManager::remove_field(&mut document, "pressure").unwrap();
    assert_eq!(FieldManager::field_exists(&document, "pressure"), Ok(false));
    assert_eq!(
        FieldManager::get_field(&document, "pressure"),
        Err(VtkError::FieldNotFound)
    );
    assert_eq!(get_poly_data(&document).unwrap().cell.len(), 2);
}

#[test]
fn test_integer_field_is_unsupported() {
    let document = sample_document();
    assert_eq!(FieldManager::field_exists(&document, "ids"), Ok(true));
    assert_eq!(
        FieldManager::get_field(&document, "ids"),
        Err(VtkError::UnsupportedFieldType)
    );
    assert_eq!(
        FieldManager::convert_to_f64(&NumericBuffer::Integer),
        Err(VtkError::UnsupportedFieldType)
    );
}

#[test]
fn test_single_precision_points_are_widened() {
    let document = sample_document();
    let (points, connectivity, offsets) = GeometryExtractor::extract_geometry(&document).unwrap();
    assert_eq!(floats(points), vec![0.0, 0.5, -2.0]);
    assert!(connectivity.is_empty());
    assert!(offsets.is_empty());
    assert_eq!(
        GeometryExtractor::extract_points(&NumericBuffer::Integer),
        Err(VtkError::UnsupportedPointFormat)
    );
}

#[test]
fn test_documents_without_working_piece() {
    let other = Document {
        data: DataSet::Other,
    };
    assert_eq!(
        FieldManager::field_exists(&other, "x"),
        Err(VtkError::ExpectedPolyData)
    );
    assert_eq!(
        GeometryExtractor::extract_geometry(&other).unwrap_err(),
        VtkError::ExpectedPolyData
    );
    let mut empty = Document {
        data: DataSet::PolyData { pieces: vec![] },
    };
    assert_eq!(
        FieldManager::list_fields(&empty),
        Err(VtkError::NoPieces)
    );
    assert_eq!(
        FieldManager::add_field(&mut empty, "x", &[]),
        Err(VtkError::NoPieces)
    );
    assert!(get_poly_data_mut(&mut empty).is_err());
    let mut remote = Document {
        data: DataSet::PolyData {
            pieces: vec![Piece::Source, Piece::Loaded],
        },
    };
    assert_eq!(
        FieldManager::get_field(&remote, "x"),
        Err(VtkError::ExpectedInlinePiece)
    );
    assert_eq!(
        FieldManager::remove_field(&mut remote, "x"),
        Err(VtkError::ExpectedInlinePiece)
    );
    let processor = VtpProcessor::new(remote);
    assert_eq!(
        processor.add_field("x", &[]).unwrap_err(),
        VtkError::ExpectedInlinePiece
    );
}

#[test]
fn test_reader_hands_the_document_on() {
    let mut reader = VtkReader::new(sample_document());
    assert_eq!(get_poly_data(reader.vtk()).unwrap().cell.len(), 4);
    FieldManager::add_field(reader.vtk_mut(), "area", &bits(&[0.25, 0.75])).unwrap();
    let piece = get_poly_data_mut(reader.vtk_mut()).unwrap();
    assert_eq!(piece.cell.len(), 5);
    let document = reader.into_vtk();
    assert_eq!(
        floats(FieldManager::get_field(&document, "area").unwrap()),
        vec![0.25, 0.75]
    );
}

fn with_polys(polys: Polys) -> Document {
    Document {
        data: DataSet::PolyData {
            pieces: vec![Piece::Inline(PolyDataPiece {
                points: NumericBuffer::Double(vec![]),
                polys: Some(polys),
                cell: vec![],
            })],
        },
    }
}

#[test]
fn test_legacy_polygons_come_out_in_the_xml_form() {
    let cells = LegacyCells::new(2, vec![3, 0, 1, 2, 4, 2, 3, 4, 5]).unwrap();
    assert_eq!(cells.num_cells(), 2);
    assert_eq!(cells.vertices(), &vec![3, 0, 1, 2, 4, 2, 3, 4, 5]);
    let document = with_polys(Polys::Legacy(cells));
    let (_, connectivity, offsets) = GeometryExtractor::extract_geometry(&document).unwrap();
    assert_eq!(connectivity, vec![0, 1, 2, 2, 3, 4, 5]);
    assert_eq!(offsets, vec![3, 7]);
}

#[test]
fn test_legacy_polygons_with_empty_cells() {
    let cells = LegacyCells::new(4, vec![0, 2, 8, 9, 0, 1, 7]).unwrap();
    let document = with_polys(Polys::Legacy(cells));
    let (_, connectivity, offsets) = GeometryExtractor::extract_geometry(&document).unwrap();
    assert_eq!(connectivity, vec![8, 9, 7]);
    assert_eq!(offsets, vec![0, 2, 2, 3]);
    let none = with_polys(Polys::Legacy(LegacyCells::new(0, vec![]).unwrap()));
    let (_, connectivity, offsets) = GeometryExtractor::extract_geometry(&none).unwrap();
    assert!(connectivity.is_empty());
    assert!(offsets.is_empty());
}

#[test]
fn test_legacy_cell_count_is_checked() {
    assert!(LegacyCells::new(1, vec![3, 0, 1, 2, 4, 2, 3, 4, 5]).is_none());
    assert!(LegacyCells::new(3, vec![3, 0, 1, 2, 4, 2, 3, 4, 5]).is_none());
    assert!(LegacyCells::new(1, vec![]).is_none());
    assert!(LegacyCells::new(0, vec![0]).is_none());
    assert!(LegacyCells::new(1, vec![0]).is_some());
    assert!(LegacyCells::new(2, vec![0, 0]).is_some());
    // The last cell may be cut short: the list still holds one cell.
    assert!(LegacyCells::new(1, vec![3, 0, 1]).is_some());
    assert!(LegacyCells::new(1, vec![u32::MAX, 0]).is_some());
}

#[test]
fn test_xml_polygons_are_taken_as_they_are() {
    let document = with_polys(Polys::Xml {
        connectivity: vec![4, 5, 6, 6, 5, 7],
        offsets: vec![3, 6],
    });
    let (_, connectivity, offsets) = GeometryExtractor::extract_geometry(&document).unwrap();
    assert_eq!(connectivity, vec![4, 5, 6, 6, 5, 7]);
    assert_eq!(offsets, vec![3, 6]);
}
