use vstd::prelude::*;

verus! {

/// Row-major index of cell `(i, j)` in a grid that is `w` cells wide.
pub open spec fn spec_to_index(i: int, j: int, w: int) -> int {
    i * w + j
}

/// The six vertex indices of the two triangles of the quad whose top-left
/// corner is `(i, j)`, in a grid that is `w` vertices wide.
pub open spec fn quad_indices(i: int, j: int, w: int) -> Seq<int> {
    seq![
        spec_to_index(i, j, w),
        spec_to_index(i + 1, j, w),
        spec_to_index(i, j + 1, w),
        spec_to_index(i + 1, j, w),
        spec_to_index(i + 1, j + 1, w),
        spec_to_index(i, j + 1, w),
    ]
}

/// Inputs on which building the grid indices runs without an arithmetic
/// fault: at least one row, at least one column when there is more than one
/// row, and the largest vertex index fits in a `u32`.
pub open spec fn grid_dims_ok(h: int, w: int) -> bool {
    &&& h >= 1
    &&& (h >= 2 ==> w >= 1)
    &&& (h >= 2 && w >= 2 ==> h * w - 1 <= u32::MAX)
}

/// Row-major index of cell `(i, j)` in a grid that is `w` cells wide.
pub fn to_index(i: u32, j: u32, w: u32) -> (r: u32)
    requires
        i * w + j <= u32::MAX,
    ensures
        r == spec_to_index(i as int, j as int, w as int),
{
    proof {
        assert(0 <= i * w <= i * w + j) by (nonlinear_arith)
            requires
                i * w + j <= u32::MAX,
        ;
    }
    i * w + j
}

proof fn lemma_quad_in_range(i: int, j: int, h: int, w: int)
    requires
        0 <= i < h - 1,
        0 <= j < w - 1,
    ensures
        0 <= spec_to_index(i, j, w),
        spec_to_index(i + 1, j + 1, w) <= h * w - 1,
        spec_to_index(i, j + 1, w) <= spec_to_index(i + 1, j + 1, w),
        spec_to_index(i + 1, j, w) <= spec_to_index(i + 1, j + 1, w),
{
    assert(0 <= i * w) by (nonlinear_arith)
        requires
            0 <= i,
            0 <= j < w - 1,
    ;
    assert((i + 1) * w + j + 1 <= h * w - 1) by (nonlinear_arith)
        requires
            0 <= i < h - 1,
            0 <= j < w - 1,
    ;
    assert((i + 1) * w == i * w + w) by (nonlinear_arith);
}

proof fn lemma_cell_offset(i: int, j: int, w: int)
    requires
        w >= 2,
        0 <= i,
        0 <= j < w - 1,
    ensures
        6 * (i * (w - 1) + j) + 6 == 6 * (i * (w - 1) + (j + 1)),
        6 * (i * (w - 1) + (w - 1)) == 6 * ((i + 1) * (w - 1)),
        0 <= i * (w - 1),
{
    assert((i + 1) * (w - 1) == i * (w - 1) + (w - 1)) by (nonlinear_arith);
    assert(0 <= i * (w - 1)) by (nonlinear_arith)
        requires
            w >= 2,
            0 <= i,
    ;
}

/// Triangle indices for an `h` by `w` grid of vertices: two triangles per
/// quad, quads in row-major order.
pub fn indices_for_grid(h: u32, w: u32) -> (r: Vec<u32>)
    requires
        grid_dims_ok(h as int, w as int),
    ensures
        r@.len() == 6 * (h - 1) * (w - 1),
        forall|i: int, j: int, t: int|
            0 <= i < h - 1 && 0 <= j < w - 1 && 0 <= t < 6 ==> r@[6 * (i * (w - 1) + j) + t]
                == #[trigger] quad_indices(i, j, w as int)[t],
        forall|k: int| 0 <= k < r@.len() ==> #[trigger] r@[k] < h * w,
{
    let mut indices: Vec<u32> = Vec::new();
    let mut i: u32 = 0;
    while i < h - 1
        invariant
            grid_dims_ok(h as int, w as int),
            0 <= i <= h - 1,
            indices@.len() == 6 * (i * (w - 1)),
            forall|k: int| 0 <= k < indices@.len() ==> #[trigger] indices@[k] < h * w,
            forall|a: int, b: int, t: int|
                0 <= a < i && 0 <= b < w - 1 && 0 <= t < 6 ==> indices@[6 * (a * (w - 1) + b) + t]
                    == #[trigger] quad_indices(a, b, w as int)[t],
        decreases h - 1 - i,
    {
        let mut j: u32 = 0;
        while j < w - 1
            invariant
                grid_dims_ok(h as int, w as int),
                h >= 2,
                0 <= i < h - 1,
                0 <= j <= w - 1,
                indices@.len() == 6 * (i * (w - 1) + j),
                forall|k: int| 0 <= k < indices@.len() ==> #[trigger] indices@[k] < h * w,
                forall|a: int, b: int, t: int|
                    0 <= a < i && 0 <= b < w - 1 && 0 <= t < 6 ==> indices@[6 * (a * (w - 1) + b)
                        + t] == #[trigger] quad_indices(a, b, w as int)[t],
                forall|b: int, t: int|
                    0 <= b < j && 0 <= t < 6 ==> indices@[6 * (i * (w - 1) + b) + t]
                        == #[trigger] quad_indices(i as int, b, w as int)[t],
            decreases w - 1 - j,
        {
            proof {
                lemma_quad_in_range(i as int, j as int, h as int, w as int);
                lemma_cell_offset(i as int, j as int, w as int);
            }
            let ghost before = indices@;
            let base: usize = indices.len();
            // first triangle
            indices.push(to_index(i, j, w));
            indices.push(to_index(i + 1, j, w));
            indices.push(to_index(i, j + 1, w));
            // second triangle
            indices.push(to_index(i + 1, j, w));
            indices.push(to_index(i + 1, j + 1, w));
            indices.push(to_index(i, j + 1, w));
            proof {
                assert forall|a: int, b: int, t: int|
                    0 <= a < i && 0 <= b < w - 1 && 0 <= t < 6 implies indices@[6 * (a * (w - 1)
                        + b) + t] == #[trigger] quad_indices(a, b, w as int)[t] by {
                    assert(6 * (a * (w - 1) + b) + t < 6 * (i * (w - 1))) by (nonlinear_arith)
                        requires
                            0 <= a < i,
                            0 <= b < w - 1,
                            0 <= t < 6,
                    ;
                    assert(indices@[6 * (a * (w - 1) + b) + t] == before[6 * (a * (w - 1) + b)
                        + t]);
                }
                assert forall|b: int, t: int|
                    0 <= b < j + 1 && 0 <= t < 6 implies indices@[6 * (i * (w - 1) + b) + t]
                        == #[trigger] quad_indices(i as int, b, w as int)[t] by {
                    if b < j {
                        assert(indices@[6 * (i * (w - 1) + b) + t] == before[6 * (i * (w - 1) + b)
                            + t]);
                    }
                }
            }
            j = j + 1;
        }
        proof {
            assert(6 * ((i + 1) * (w - 1)) == 6 * (i * (w - 1) + (w - 1))) by (nonlinear_arith);
        }
        i = i + 1;
    }
    proof {
        assert(6 * (h - 1) * (w - 1) == 6 * ((h - 1) * (w - 1))) by (nonlinear_arith);
    }
    indices
}

} // verus!
