//! Fan triangulation of the polygons of a mesh.
//!
//! A mesh lists the point indices of all its polygons in one connectivity
//! array; `offsets[p]` is the index just past the end of polygon `p`. The
//! area of a polygon is the sum, over the triangles of its fan, of half the
//! norm of the cross product of the two edges that leave the first vertex.
//! This module yields the triangles; the sum is rounding arithmetic.

use vstd::prelude::*;

verus! {

/// Whether `offsets` cuts a connectivity array of the given length into
/// polygons: the offsets do not decrease and none lies past the end.
pub open spec fn offsets_valid(connectivity_len: int, offsets: Seq<usize>) -> bool {
    &&& forall|p: int| 0 <= p < offsets.len() ==> #[trigger] offsets[p] <= connectivity_len
    &&& forall|p: int, q: int| 0 <= p <= q < offsets.len() ==> offsets[p] <= offsets[q]
}

/// Where polygon `p` starts in the connectivity array.
pub open spec fn polygon_start(offsets: Seq<usize>, p: int) -> int {
    if p <= 0 {
        0
    } else {
        offsets[p - 1] as int
    }
}

/// The point indices of polygon `p`.
pub open spec fn polygon(connectivity: Seq<usize>, offsets: Seq<usize>, p: int) -> Seq<usize> {
    connectivity.subrange(polygon_start(offsets, p), offsets[p] as int)
}

/// The fan of a polygon: for a polygon `i0, i1, .., ik` with at least three
/// vertices the triangles `(i0, ij, ij+1)` for `j` from 1 to `k - 1`, and no
/// triangle for a polygon with fewer vertices.
pub open spec fn fan(vertices: Seq<usize>) -> Seq<[usize; 3]> {
    if vertices.len() < 3 {
        Seq::empty()
    } else {
        Seq::new(
            (vertices.len() - 2) as nat,
            |j: int| [vertices[0], vertices[j + 1], vertices[j + 2]],
        )
    }
}

/// Decides whether `offsets` cuts a connectivity array of the given length
/// into polygons.
pub fn check_offsets(connectivity_len: usize, offsets: &[usize]) -> (valid: bool)
    ensures
        valid == offsets_valid(connectivity_len as int, offsets@),
{
    let mut previous: usize = 0;
    let mut p: usize = 0;
    while p < offsets.len()
        invariant
            p <= offsets@.len(),
            p > 0 ==> previous == offsets@[p - 1],
            forall|i: int| 0 <= i < p ==> #[trigger] offsets@[i] <= connectivity_len,
            forall|i: int, j: int| 0 <= i <= j < p ==> offsets@[i] <= offsets@[j],
        decreases offsets@.len() - p,
    {
        let offset: usize = offsets[p];
        if offset > connectivity_len {
            return false;
        }
        if p > 0 && offset < previous {
            assert(!(offsets@[p - 1] <= offsets@[p as int]));
            return false;
        }
        previous = offset;
        p = p + 1;
    }
    true
}

/// The fan of the polygon that occupies `connectivity[start..end]`.
fn polygon_fan(connectivity: &[usize], start: usize, end: usize) -> (triangles: Vec<[usize; 3]>)
    requires
        start <= end <= connectivity@.len(),
    ensures
        triangles@ == fan(connectivity@.subrange(start as int, end as int)),
{
    let ghost vertices = connectivity@.subrange(start as int, end as int);
    let mut triangles: Vec<[usize; 3]> = Vec::new();
    if end - start < 3 {
        assert(triangles@ =~= fan(vertices));
        return triangles;
    }
    let first: usize = connectivity[start];
    let mut i: usize = start + 1;
    while i < end - 1
        invariant
            start + 1 <= i <= end - 1,
            end <= connectivity@.len(),
            end - start >= 3,
            first == connectivity@[start as int],
            vertices == connectivity@.subrange(start as int, end as int),
            triangles@.len() == i - start - 1,
            forall|j: int|
                0 <= j < triangles@.len() ==> #[trigger] triangles@[j] == fan(vertices)[j],
        decreases end - i,
    {
        let triangle: [usize; 3] = [first, connectivity[i], connectivity[i + 1]];
        proof {
            let j = i - start - 1;
            assert(fan(vertices)[j] == [vertices[0], vertices[j + 1], vertices[j + 2]]);
            assert(triangle == fan(vertices)[j]);
        }
        triangles.push(triangle);
        i = i + 1;
    }
    assert(triangles@ =~= fan(vertices));
    triangles
}

/// Fan-triangulates every polygon of a mesh: one list of triangles for each
/// polygon, in the order of `offsets`, each triangle as three point indices.
pub fn polygon_fans(connectivity: &[usize], offsets: &[usize]) -> (fans: Vec<Vec<[usize; 3]>>)
    requires
        offsets_valid(connectivity@.len() as int, offsets@),
    ensures
        fans@.len() == offsets@.len(),
        forall|p: int|
            0 <= p < offsets@.len() ==> (#[trigger] fans@[p])@ == fan(
                polygon(connectivity@, offsets@, p),
            ),
{
    let mut fans: Vec<Vec<[usize; 3]>> = Vec::new();
    let mut start: usize = 0;
    let mut p: usize = 0;
    while p < offsets.len()
        invariant
            offsets_valid(connectivity@.len() as int, offsets@),
            p <= offsets@.len(),
            start == polygon_start(offsets@, p as int),
            start <= connectivity@.len(),
            fans@.len() == p,
            forall|q: int|
                0 <= q < p ==> (#[trigger] fans@[q])@ == fan(polygon(connectivity@, offsets@, q)),
        decreases offsets@.len() - p,
    {
        let end: usize = offsets[p];
        proof {
            if p > 0 {
                assert(offsets@[p - 1] <= offsets@[p as int]);
            }
        }
        let triangles: Vec<[usize; 3]> = polygon_fan(connectivity, start, end);
        fans.push(triangles);
        start = end;
        p = p + 1;
    }
    fans
}

/// Checks the offsets, then fan-triangulates: `None` when the offsets do not
/// cut the connectivity array into polygons.
pub fn try_polygon_fans(connectivity: &[usize], offsets: &[usize]) -> (fans: Option<
    Vec<Vec<[usize; 3]>>,
>)
    ensures
        fans.is_some() <==> offsets_valid(connectivity@.len() as int, offsets@),
        fans.is_some() ==> fans.unwrap()@.len() == offsets@.len(),
        fans.is_some() ==> forall|p: int|
            0 <= p < offsets@.len() ==> (#[trigger] fans.unwrap()@[p])@ == fan(
                polygon(connectivity@, offsets@, p),
            ),
{
    if check_offsets(connectivity.len(), offsets) {
        Some(polygon_fans(connectivity, offsets))
    } else {
        None
    }
}

/// The area of a list of triangles before any rounding: the sum of what a
/// measure gives for each triangle, in whatever unit the measure counts.
pub open spec fn total_area(triangles: Seq<[usize; 3]>, measure: spec_fn([usize; 3]) -> int) -> int
    decreases triangles.len(),
{
    if triangles.len() == 0 {
        0
    } else {
        total_area(triangles.drop_last(), measure) + measure(triangles.last())
    }
}

/// A polygon with fewer than three vertices has no triangle, so its area is
/// zero, whatever the measure of a triangle.
pub proof fn lemma_degenerate_polygon_has_no_area(
    vertices: Seq<usize>,
    measure: spec_fn([usize; 3]) -> int,
)
    requires
        vertices.len() < 3,
    ensures
        fan(vertices).len() == 0,
        total_area(fan(vertices), measure) == 0,
{
}

/// A polygon with `n >= 3` vertices has `n - 2` triangles, which all start
/// at its first vertex and walk its boundary edge by edge.
pub proof fn lemma_fan_shape(vertices: Seq<usize>, j: int)
    requires
        vertices.len() >= 3,
        0 <= j < vertices.len() - 2,
    ensures
        fan(vertices).len() == vertices.len() - 2,
        fan(vertices)[j][0] == vertices[0],
        fan(vertices)[j][1] == vertices[j + 1],
        fan(vertices)[j][2] == vertices[j + 2],
{
}

} // verus!
