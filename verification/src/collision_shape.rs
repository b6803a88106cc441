use vstd::prelude::*;

verus! {

/// An edge of a polygon, from `v1` to `v2`.
#[derive(Debug, Copy, Clone)]
pub struct Side<V> {
    pub v1: V,
    pub v2: V,
}

/// A convex polygon given by its corners in order: `v1`, `v2`, the corners
/// `in_between`, and `last`; `center` is carried along for the caller.
#[derive(Debug)]
pub struct ConvexCollisionShape<V> {
    pub v1: V,
    pub v2: V,
    pub in_between: Vec<V>,
    pub last: V,
    pub center: V,
}

/// The corners of `shape`, in order.
pub open spec fn shape_corners<V>(shape: ConvexCollisionShape<V>) -> Seq<V> {
    seq![shape.v1, shape.v2] + shape.in_between@ + seq![shape.last]
}

/// Whether `sides` walk around the polygon with corners `vs`: side `i` runs
/// from corner `i` to the next corner, and the last side closes the loop.
pub open spec fn closed_polygon<V>(vs: Seq<V>, sides: Seq<Side<V>>) -> bool {
    &&& sides.len() == vs.len()
    &&& forall|i: int|
        0 <= i < sides.len() ==> (#[trigger] sides[i]).v1 == vs[i] && sides[i].v2 == vs[(i + 1)
            % (vs.len() as int)]
}

/// The start corners of `sides`.
pub open spec fn side_starts<V>(sides: Seq<Side<V>>) -> Seq<V> {
    sides.map_values(|s: Side<V>| s.v1)
}

/// The corners of `shape`, in order.
pub fn get_shape_vertices<V: Copy>(shape: &ConvexCollisionShape<V>) -> (res: Vec<V>)
    ensures
        res@ == shape_corners(*shape),
{
    let mut res: Vec<V> = Vec::new();
    res.push(shape.v1);
    res.push(shape.v2);
    for i in 0..shape.in_between.len()
        invariant
            res@ == seq![shape.v1, shape.v2] + shape.in_between@.take(i as int),
    {
        res.push(shape.in_between[i]);
        assert(res@ =~= seq![shape.v1, shape.v2] + shape.in_between@.take(i + 1));
    }
    res.push(shape.last);
    assert(shape.in_between@.take(shape.in_between@.len() as int) =~= shape.in_between@);
    assert(res@ =~= shape_corners(*shape));
    res
}

/// The sides of `shape`, walking its corners in order and closing the loop.
pub fn generate_shape_sides<V: Copy>(shape: &ConvexCollisionShape<V>) -> (res: Vec<Side<V>>)
    ensures
        closed_polygon(shape_corners(*shape), res@),
{
    let ghost vs = shape_corners(*shape);
    let ghost n = shape.in_between@.len();
    let mut res: Vec<Side<V>> = Vec::new();
    res.push(Side { v1: shape.v1, v2: shape.v2 });
    let mut next_v1 = shape.v2;
    let mut next_v2 = shape.v2;
    for i in 0..shape.in_between.len()
        invariant
            vs == shape_corners(*shape),
            n == shape.in_between@.len(),
            res@.len() == i + 1,
            next_v2 == vs[i + 1],
            forall|k: int| 0 <= k < res@.len() ==> (#[trigger] res@[k]).v1 == vs[k] && res@[k].v2 == vs[k + 1],
    {
        next_v1 = next_v2;
        next_v2 = shape.in_between[i];
        res.push(Side { v1: next_v1, v2: next_v2 });
    }
    res.push(Side { v1: next_v2, v2: shape.last });
    res.push(Side { v1: shape.last, v2: shape.v1 });
    proof {
        let len = vs.len() as int;
        assert(len == n + 3);
        assert forall|k: int| 0 <= k < res@.len() implies (#[trigger] res@[k]).v1 == vs[k]
            && res@[k].v2 == vs[(k + 1) % len] by {
            if k + 1 < len {
                vstd::arithmetic::div_mod::lemma_small_mod((k + 1) as nat, len as nat);
            } else {
                vstd::arithmetic::div_mod::lemma_mod_self_0(len);
            }
        }
    }
    res
}

/// The sides of the polygon with corners `vertices`, in order and closing the
/// loop; no sides for fewer than two corners.
pub fn generate_side<V: Copy>(vertices: &Vec<V>) -> (res: Vec<Side<V>>)
    ensures
        vertices@.len() < 2 ==> res@.len() == 0,
        vertices@.len() >= 2 ==> closed_polygon(vertices@, res@),
{
    let mut res: Vec<Side<V>> = Vec::new();
    if vertices.len() < 2 {
        return res;
    }
    let max_idx = vertices.len() - 1;
    for i in 1..max_idx + 1
        invariant
            max_idx == vertices@.len() - 1,
            max_idx >= 1,
            res@.len() == i - 1,
            forall|k: int| 0 <= k < res@.len() ==> (#[trigger] res@[k]).v1 == vertices@[k] && res@[k].v2 == vertices@[k + 1],
    {
        res.push(Side { v1: vertices[i - 1], v2: vertices[i] });
    }
    res.push(Side { v1: vertices[max_idx], v2: vertices[0] });
    proof {
        let len = vertices@.len() as int;
        assert forall|k: int| 0 <= k < res@.len() implies (#[trigger] res@[k]).v1 == vertices@[k]
            && res@[k].v2 == vertices@[(k + 1) % len] by {
            if k + 1 < len {
                vstd::arithmetic::div_mod::lemma_small_mod((k + 1) as nat, len as nat);
            } else {
                vstd::arithmetic::div_mod::lemma_mod_self_0(len);
            }
        }
    }
    res
}

/// The start corner of each side, in order.
pub fn vertices_from_sides<V: Copy>(sides: &[Side<V>]) -> (r: Vec<V>)
    ensures
        r@ == side_starts(sides@),
{
    let mut r: Vec<V> = Vec::new();
    for i in 0..sides.len()
        invariant
            r@ == side_starts(sides@).take(i as int),
    {
        r.push(sides[i].v1);
        assert(r@ =~= side_starts(sides@).take(i + 1));
    }
    assert(side_starts(sides@).take(sides@.len() as int) =~= side_starts(sides@));
    r
}

/// Reading the start corners back from the sides of a closed polygon gives
/// its corners again: `vertices_from_sides` undoes `generate_side` (for two
/// or more corners) and `generate_shape_sides` (giving `get_shape_vertices`).
pub proof fn lemma_sides_round_trip<V>(vs: Seq<V>, sides: Seq<Side<V>>)
    requires
        closed_polygon(vs, sides),
    ensures
        side_starts(sides) == vs,
{
    assert(side_starts(sides) =~= vs);
}

} // verus!
