use autofoam::coordinates::update_coordinate_bounds;

fn bits(v: [f32; 3]) -> [u32; 3] {
    [v[0].to_bits(), v[1].to_bits(), v[2].to_bits()]
}

fn floats(v: [u32; 3]) -> [f32; 3] {
    [f32::from_bits(v[0]), f32::from_bits(v[1]), f32::from_bits(v[2])]
}

fn update(vertex: [f32; 3], min: &mut [f32; 3], max: &mut [f32; 3]) {
    let mut low = bits(*min);
    let mut high = bits(*max);
    update_coordinate_bounds(bits(vertex), &mut low, &mut high);
    *min = floats(low);
    *max = floats(high);
}

#[test]
fn test_update_bounds_basic() {
    let mut min = [0.0, 0.0, 0.0];
    let mut max = [0.0, 0.0, 0.0];
    let vertex = [1.0, 2.0, 3.0];

    update(vertex, &mut min, &mut max);

    assert_eq!(min, [0.0, 0.0, 0.0]);
    assert_eq!(max, [1.0, 2.0, 3.0]);
}

#[test]
fn test_update_bounds_negative_vertex() {
    let mut min = [0.0, 0.0, 0.0];
    let mut max = [0.0, 0.0, 0.0];
    let vertex = [-1.0, -2.0, -3.0];

    update(vertex, &mut min, &mut max);

    assert_eq!(min, [-1.0, -2.0, -3.0]);
    assert_eq!(max, [0.0, 0.0, 0.0]);
}

#[test]
fn test_update_bounds_mixed_coordinates() {
    let mut min = [1.0, -1.0, 0.0];
    let mut max = [2.0, 1.0, 3.0];
    let vertex = [0.5, 2.0, -1.0];

    update(vertex, &mut min, &mut max);

    assert_eq!(min, [0.5, -1.0, -1.0]);
    assert_eq!(max, [2.0, 2.0, 3.0]);
}

#[test]
fn test_update_bounds_no_change() {
    let mut min = [-5.0, -5.0, -5.0];
    let mut max = [5.0, 5.0, 5.0];
    let vertex = [0.0, 0.0, 0.0];

    update(vertex, &mut min, &mut max);

    assert_eq!(min, [-5.0, -5.0, -5.0]);
    assert_eq!(max, [5.0, 5.0, 5.0]);
}

#[test]
fn test_update_bounds_sequential_vertices() {
    let mut min = [f32::INFINITY; 3];
    let mut max = [f32::NEG_INFINITY; 3];

    let vertices = [[1.0, 2.0, 3.0], [-1.0, 4.0, 1.0], [3.0, -2.0, 5.0]];

    for vertex in vertices {
        update(vertex, &mut min, &mut max);
    }

    assert_eq!(min, [-1.0, -2.0, 1.0]);
    assert_eq!(max, [3.0, 4.0, 5.0]);
}

#[test]
fn test_update_bounds_edge_values() {
    let mut min = [0.0, 0.0, 0.0];
    let mut max = [0.0, 0.0, 0.0];
    let vertex = [f32::MAX, f32::MIN, 0.0];

    update(vertex, &mut min, &mut max);

    assert_eq!(min, [0.0, f32::MIN, 0.0]);
    assert_eq!(max, [f32::MAX, 0.0, 0.0]);
}

#[test]
fn test_update_bounds_ignores_nan_coordinate() {
    let mut min = [1.0, 1.0, 1.0];
    let mut max = [2.0, 2.0, 2.0];

    update([f32::NAN, 0.0, 3.0], &mut min, &mut max);

    assert_eq!(min, [1.0, 0.0, 1.0]);
    assert_eq!(max, [2.0, 2.0, 3.0]);
}

#[test]
fn test_update_bounds_replaces_nan_bound() {
    let mut min = [f32::NAN, 1.0, 1.0];
    let mut max = [f32::NAN, 2.0, 2.0];

    update([5.0, 1.5, 1.5], &mut min, &mut max);

    assert_eq!(min, [5.0, 1.0, 1.0]);
    assert_eq!(max, [5.0, 2.0, 2.0]);
}

#[test]
fn test_update_bounds_agrees_with_hardware_on_samples() {
    let samples = [
        0.0f32,
        -0.0,
        1.0,
        -1.0,
        f32::MIN_POSITIVE,
        -f32::MIN_POSITIVE,
        1.0e-45,
        -1.0e-45,
        f32::MAX,
        f32::MIN,
        f32::INFINITY,
        f32::NEG_INFINITY,
        f32::NAN,
        3.25,
        -7.5,
    ];
    for a in samples {
        for b in samples {
            let mut min = [a; 3];
            let mut max = [a; 3];
            update([b; 3], &mut min, &mut max);
            let low = a.min(b);
            let high = a.max(b);
            assert!(min[0] == low || (min[0].is_nan() && low.is_nan()));
            assert!(max[0] == high || (max[0].is_nan() && high.is_nan()));
        }
    }
}
