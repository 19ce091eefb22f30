use vstd::prelude::*;

verus! {

/// The two endpoints of each edge, in the order the side test takes them:
/// A-B, A-C and B-C.
pub open spec fn edge_ends(e: int) -> (int, int) {
    if e == 0 {
        (0, 1)
    } else if e == 1 {
        (0, 2)
    } else {
        (1, 2)
    }
}

/// On edge `e`, `point` may come out on the same side as `reference`.
pub open spec fn same_side<P, F: Fn(P, P, P) -> bool>(
    vertices: Seq<P>,
    e: int,
    reference: P,
    point: P,
    side: F,
) -> bool {
    let (i, j) = edge_ends(e);
    exists|b: bool|
        side.ensures((vertices[i], vertices[j], reference), b) && side.ensures(
            (vertices[i], vertices[j], point),
            b,
        )
}

/// On edge `e`, `point` may come out on the other side than `reference`.
pub open spec fn other_side<P, F: Fn(P, P, P) -> bool>(
    vertices: Seq<P>,
    e: int,
    reference: P,
    point: P,
    side: F,
) -> bool {
    let (i, j) = edge_ends(e);
    exists|b: bool|
        side.ensures((vertices[i], vertices[j], reference), b) && side.ensures(
            (vertices[i], vertices[j], point),
            !b,
        )
}

/// Decides whether `point` lies inside the triangle `vertices`: it does when,
/// for each of the edges A-B, A-C and B-C, it lies on the same side of the
/// edge as `reference` (the triangle's centroid). `side(a, b, p)` tells on
/// which side of the line through `a` and `b` the point `p` lies.
pub fn in_triangle<P: Copy, F: Fn(P, P, P) -> bool>(
    vertices: &[P; 3],
    reference: P,
    point: P,
    side: F,
) -> (r: bool)
    requires
        forall|a: P, b: P, p: P| side.requires((a, b, p)),
    ensures
        r ==> forall|e: int| 0 <= e < 3 ==> same_side(vertices@, e, reference, point, side),
        !r ==> exists|e: int| 0 <= e < 3 && other_side(vertices@, e, reference, point, side),
{
    let (a, b, c) = (vertices[0], vertices[1], vertices[2]);
    let ref_ab = side(a, b, reference);
    let ref_ac = side(a, c, reference);
    let ref_bc = side(b, c, reference);
    let pt_ab = side(a, b, point);
    let pt_ac = side(a, c, point);
    let pt_bc = side(b, c, point);
    proof {
        assert(vertices@[0] == a && vertices@[1] == b && vertices@[2] == c);
    }
    if pt_ab != ref_ab {
        assert(other_side(vertices@, 0, reference, point, side));
        false
    } else if pt_ac != ref_ac {
        assert(other_side(vertices@, 1, reference, point, side));
        false
    } else if pt_bc != ref_bc {
        assert(other_side(vertices@, 2, reference, point, side));
        false
    } else {
        assert(same_side(vertices@, 0, reference, point, side));
        assert(same_side(vertices@, 1, reference, point, side));
        assert(same_side(vertices@, 2, reference, point, side));
        true
    }
}

} // verus!
