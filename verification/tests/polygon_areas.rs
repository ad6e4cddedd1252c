use autofoam::polygon_areas::{check_offsets, polygon_fans, try_polygon_fans};

fn point(points: &[f64], index: usize) -> (f64, f64, f64) {
    (points[index * 3], points[index * 3 + 1], points[index * 3 + 2])
}

fn calculate_polygon_areas(points: &[f64], connectivity: &[usize], offsets: &[usize]) -> Vec<f64> {
    polygon_fans(connectivity, offsets)
        .iter()
        .map(|fan| {
            let mut area = 0.0;
            for triangle in fan {
                let p0 = point(points, triangle[0]);
                let p1 = point(points, triangle[1]);
                let p2 = point(points, triangle[2]);
                let v1 = (p1.0 - p0.0, p1.1 - p0.1, p1.2 - p0.2);
                let v2 = (p2.0 - p0.0, p2.1 - p0.1, p2.2 - p0.2);
                let cross = (
                    v1.1 * v2.2 - v1.2 * v2.1,
                    v1.2 * v2.0 - v1.0 * v2.2,
                    v1.0 * v2.1 - v1.1 * v2.0,
                );
                area += 0.5 * (cross.0.powi(2) + cross.1.powi(2) + cross.2.powi(2)).sqrt();
            }
            area
        })
        .collect()
}

#[test]
fn test_triangle_area() {
    let points = vec![
        0.0, 0.0, 0.0, // vertex 0
        1.0, 0.0, 0.0, // vertex 1
        0.0, 1.0, 0.0, // vertex 2
    ];
    let connectivity = vec![0, 1, 2];
    let offsets = vec![3];

    let areas = calculate_polygon_areas(&points, &connectivity, &offsets);
    assert_eq!(areas.len(), 1);
    assert!((areas[0] - 0.5).abs() < 1e-10);
}

#[test]
fn test_xnorm_square_area() {
    let points = vec![
        0.0, 0.0, 0.0, // vertex 0
        0.0, 1.0, 0.0, // vertex 1
        0.0, 1.0, 1.0, // vertex 2
        0.0, 0.0, 1.0, // vertex 3
    ];
    let connectivity = vec![0, 1, 2, 3];
    let offsets = vec![4];

    let areas = calculate_polygon_areas(&points, &connectivity, &offsets);
    assert_eq!(areas.len(), 1);
    assert!((areas[0] - 1.0).abs() < 1e-10);
}

#[test]
fn test_ynorm_square_area() {
    let points = vec![
        0.0, 0.0, 0.0, // vertex 0
        0.0, 0.0, 1.0, // vertex 1
        1.0, 0.0, 1.0, // vertex 2
        1.0, 0.0, 0.0, // vertex 3
    ];
    let connectivity = vec![0, 1, 2, 3];
    let offsets = vec![4];

    let areas = calculate_polygon_areas(&points, &connectivity, &offsets);
    assert_eq!(areas.len(), 1);
    assert!((areas[0] - 1.0).abs() < 1e-10);
}

#[test]
fn test_znorm_square_area() {
    let points = vec![
        0.0, 0.0, 0.0, // vertex 0
        1.0, 0.0, 0.0, // vertex 1
        1.0, 1.0, 0.0, // vertex 2
        0.0, 1.0, 0.0, // vertex 3
    ];
    let connectivity = vec![0, 1, 2, 3];
    let offsets = vec![4];

    let areas = calculate_polygon_areas(&points, &connectivity, &offsets);
    assert_eq!(areas.len(), 1);
    assert!((areas[0] - 1.0).abs() < 1e-10);
}

#[test]
fn test_multiple_polygons() {
    // Two triangles
    let points = vec![
        0.0, 0.0, 0.0, // vertex 0 - first triangle, 0.5 area
        1.0, 0.0, 0.0, // vertex 1
        0.0, 1.0, 0.0, // vertex 2
        2.0, 0.0, 0.0, // vertex 3 - second triangle, 1.0 area
        4.0, 0.0, 0.0, // vertex 4
        3.0, 1.0, 0.0, // vertex 5
    ];
    let connectivity = vec![0, 1, 2, 3, 4, 5];
    let offsets = vec![3, 6];

    let areas = calculate_polygon_areas(&points, &connectivity, &offsets);
    assert_eq!(areas.len(), 2);
    assert!((areas[0] - 0.5).abs() < 1e-10);
    assert!((areas[1] - 1.0).abs() < 1e-10);
}

#[test]
fn test_degenerate_polygon_less_than_3_vertices() {
    let points = vec![
        0.0, 0.0, 0.0, // vertex 0
        1.0, 0.0, 0.0, // vertex 1
    ];
    let connectivity = vec![0, 1];
    let offsets = vec![2];

    let areas = calculate_polygon_areas(&points, &connectivity, &offsets);
    assert_eq!(areas.len(), 1);
    assert_eq!(areas[0], 0.0);
}

#[test]
fn test_empty_polygon() {
    let points = vec![];
    let connectivity = vec![];
    let offsets = vec![0];

    let areas = calculate_polygon_areas(&points, &connectivity, &offsets);
    assert_eq!(areas.len(), 1);
    assert_eq!(areas[0], 0.0);
}

#[test]
fn test_3d_triangle() {
    let points = vec![
        0.0, 0.0, 0.0, // vertex 0
        1.0, 0.0, 1.0, // vertex 1
        0.0, 1.0, 1.0, // vertex 2
    ];
    let connectivity = vec![0, 1, 2];
    let offsets = vec![3];

    let areas = calculate_polygon_areas(&points, &connectivity, &offsets);
    assert_eq!(areas.len(), 1);
    let expected_area = (3.0_f64).sqrt() / 2.0; // area verified in blender
    assert!((areas[0] - expected_area).abs() < 1e-10);
}

#[test]
fn test_collinear_points() {
    // Three collinear points should have zero area
    let points = vec![
        0.0, 0.0, 0.0, // vertex 0
        1.0, 0.0, 0.0, // vertex 1
        2.0, 0.0, 0.0, // vertex 2
    ];
    let connectivity = vec![0, 1, 2];
    let offsets = vec![3];

    let areas = calculate_polygon_areas(&points, &connectivity, &offsets);
    assert_eq!(areas.len(), 1);
    assert!(areas[0].abs() < 1e-10);
}

#[test]
fn test_fan_of_a_pentagon() {
    let fans = polygon_fans(&[7, 3, 9, 4, 1], &[5]);
    assert_eq!(fans, vec![vec![[7, 3, 9], [7, 9, 4], [7, 4, 1]]]);
}

#[test]
fn test_fans_follow_the_offsets() {
    let connectivity = [0, 1, 2, 3, 4, 5, 6, 7, 8, 9];
    let fans = polygon_fans(&connectivity, &[0, 1, 3, 6, 6, 10]);
    assert_eq!(
        fans,
        vec![
            vec![],
            vec![],
            vec![],
            vec![[3, 4, 5]],
            vec![],
            vec![[6, 7, 8], [6, 8, 9]],
        ]
    );
    assert!(polygon_fans(&connectivity, &[]).is_empty());
}

#[test]
fn test_offsets_are_checked() {
    assert!(check_offsets(6, &[3, 6]));
    assert!(check_offsets(6, &[3, 3, 5]));
    assert!(check_offsets(0, &[]));
    assert!(check_offsets(0, &[0]));
    assert!(!check_offsets(6, &[3, 7]));
    assert!(!check_offsets(6, &[4, 3]));
    assert!(!check_offsets(0, &[1]));
    assert_eq!(try_polygon_fans(&[0, 1, 2], &[4]), None);
    assert_eq!(try_polygon_fans(&[0, 1, 2], &[2, 1]), None);
    assert_eq!(
        try_polygon_fans(&[0, 1, 2], &[3]),
        Some(vec![vec![[0, 1, 2]]])
    );
}
