use vstd::prelude::*;

verus! {

/// `r` is the chaos-game sequence from `seed`: its first point is the
/// midpoint of vertex `first` and the seed, and each later point is the
/// midpoint of the next picked vertex and the point before it.
pub open spec fn is_chaos_sequence<P, F: Fn(P, P) -> P>(
    vertices: Seq<P>,
    seed: P,
    first: usize,
    picks: Seq<usize>,
    midpoint: F,
    r: Seq<P>,
) -> bool {
    &&& r.len() == picks.len() + 1
    &&& midpoint.ensures((vertices[first as int], seed), r[0])
    &&& forall|i: int|
        1 <= i < r.len() ==> midpoint.ensures(
            (vertices[picks[i - 1] as int], r[i - 1]),
            #[trigger] r[i],
        )
}

/// Every pick names one of the three vertices.
pub open spec fn picks_valid(picks: Seq<usize>) -> bool {
    forall|i: int| 0 <= i < picks.len() ==> picks[i] < 3
}

/// Runs the chaos game: starting from `seed`, moves halfway towards vertex
/// `first`, then once for each entry of `picks` halfway towards the vertex it
/// names. Returns every point reached, so one more than there are picks.
pub fn generate<P: Copy, F: Fn(P, P) -> P>(
    vertices: &[P; 3],
    seed: P,
    first: usize,
    picks: &Vec<usize>,
    midpoint: F,
) -> (r: Vec<P>)
    requires
        first < 3,
        picks_valid(picks@),
        forall|a: P, b: P| midpoint.requires((a, b)),
    ensures
        r@.len() == picks@.len() + 1,
        is_chaos_sequence(vertices@, seed, first, picks@, midpoint, r@),
{
    let mut p = midpoint(vertices[first], seed);
    let mut points: Vec<P> = Vec::new();
    points.push(p);
    let mut k: usize = 0;
    while k < picks.len()
        invariant
            k <= picks@.len(),
            points@.len() == k + 1,
            points@[k as int] == p,
            picks_valid(picks@),
            forall|a: P, b: P| midpoint.requires((a, b)),
            midpoint.ensures((vertices@[first as int], seed), points@[0]),
            forall|i: int|
                1 <= i <= k ==> midpoint.ensures(
                    (vertices@[picks@[i - 1] as int], points@[i - 1]),
                    #[trigger] points@[i],
                ),
        decreases picks@.len() - k,
    {
        let v = picks[k];
        let q = midpoint(vertices[v], p);
        points.push(q);
        p = q;
        k = k + 1;
    }
    points
}

/// Candidate `i` is the first one that `contains` accepted: every candidate
/// before it was rejected.
pub open spec fn is_first_inside<P, C: Fn(P) -> bool>(
    candidates: Seq<P>,
    contains: C,
    i: int,
) -> bool {
    &&& 0 <= i < candidates.len()
    &&& contains.ensures((candidates[i],), true)
    &&& forall|j: int| 0 <= j < i ==> contains.ensures((candidates[j],), false)
}

/// Every candidate was rejected.
pub open spec fn none_inside<P, C: Fn(P) -> bool>(candidates: Seq<P>, contains: C) -> bool {
    forall|j: int|
        0 <= j < candidates.len() ==> contains.ensures((#[trigger] candidates[j],), false)
}

/// What the whole generator returns: `None` when no candidate seed was
/// accepted, and otherwise the chaos-game sequence from the first accepted
/// candidate.
pub open spec fn is_sierpinski_result<P, C: Fn(P) -> bool, F: Fn(P, P) -> P>(
    vertices: Seq<P>,
    candidates: Seq<P>,
    first: usize,
    picks: Seq<usize>,
    contains: C,
    midpoint: F,
    r: Option<Seq<P>>,
) -> bool {
    match r {
        Some(points) => exists|i: int|
            is_first_inside(candidates, contains, i) && is_chaos_sequence(
                vertices,
                candidates[i],
                first,
                picks,
                midpoint,
                points,
            ),
        None => none_inside(candidates, contains),
    }
}

/// Rejection sampling of the seed: the index of the first candidate that
/// `contains` accepts, or `None` when it accepts none of them.
pub fn first_inside<P: Copy, C: Fn(P) -> bool>(
    candidates: &Vec<P>,
    contains: C,
) -> (r: Option<usize>)
    requires
        forall|p: P| contains.requires((p,)),
    ensures
        match r {
            Some(i) => is_first_inside(candidates@, contains, i as int),
            None => none_inside(candidates@, contains),
        },
{
    let mut k: usize = 0;
    while k < candidates.len()
        invariant
            k <= candidates@.len(),
            forall|p: P| contains.requires((p,)),
            forall|j: int| 0 <= j < k ==> contains.ensures((candidates@[j],), false),
        decreases candidates@.len() - k,
    {
        if contains(candidates[k]) {
            return Some(k);
        }
        k = k + 1;
    }
    None
}

/// Approximates the Sierpinski triangle by points. The seed is the first of
/// `candidates` that `contains` places inside the triangle; from it the chaos
/// game moves towards vertex `first` and then towards each vertex of `picks`.
/// Returns `None` when no candidate lies inside, which bounds the search for
/// a seed by the number of candidates drawn.
pub fn sierpinski<P: Copy, C: Fn(P) -> bool, F: Fn(P, P) -> P>(
    vertices: &[P; 3],
    candidates: &Vec<P>,
    first: usize,
    picks: &Vec<usize>,
    contains: C,
    midpoint: F,
) -> (r: Option<Vec<P>>)
    requires
        first < 3,
        picks_valid(picks@),
        forall|p: P| contains.requires((p,)),
        forall|a: P, b: P| midpoint.requires((a, b)),
    ensures
        is_sierpinski_result(
            vertices@,
            candidates@,
            first,
            picks@,
            contains,
            midpoint,
            match r {
                Some(v) => Some(v@),
                None => None,
            },
        ),
        r is Some ==> r->0@.len() == picks@.len() + 1,
{
    match first_inside(candidates, contains) {
        Some(i) => {
            let points = generate(vertices, candidates[i], first, picks, midpoint);
            assert(is_first_inside(candidates@, contains, i as int));
            Some(points)
        },
        None => None,
    }
}

/// The sequence has one point more than there are picks, and with no picks
/// it is the single midpoint of the seed and the first chosen vertex.
pub proof fn lemma_zero_iterations<P, F: Fn(P, P) -> P>(
    vertices: Seq<P>,
    seed: P,
    first: usize,
    midpoint: F,
    r: Seq<P>,
)
    requires
        is_chaos_sequence(vertices, seed, first, Seq::<usize>::empty(), midpoint, r),
    ensures
        r.len() == 1,
        midpoint.ensures((vertices[first as int], seed), r[0]),
{
}

/// Every point of the sequence stays in any region that holds the vertices
/// and the seed and that contains the midpoint of any two of its points,
/// such as the closed triangle under exact arithmetic.
pub proof fn lemma_points_stay_in<P, F: Fn(P, P) -> P>(
    region: spec_fn(P) -> bool,
    vertices: Seq<P>,
    seed: P,
    first: usize,
    picks: Seq<usize>,
    midpoint: F,
    r: Seq<P>,
)
    requires
        vertices.len() == 3,
        first < 3,
        picks_valid(picks),
        is_chaos_sequence(vertices, seed, first, picks, midpoint, r),
        forall|i: int| 0 <= i < 3 ==> region(#[trigger] vertices[i]),
        region(seed),
        forall|a: P, b: P, m: P|
            region(a) && region(b) && #[trigger] midpoint.ensures((a, b), m) ==> region(m),
    ensures
        forall|i: int| 0 <= i < r.len() ==> region(#[trigger] r[i]),
{
    assert forall|i: int| 0 <= i < r.len() implies region(#[trigger] r[i]) by {
        lemma_point_in_region(region, vertices, seed, first, picks, midpoint, r, i);
    }
}

proof fn lemma_point_in_region<P, F: Fn(P, P) -> P>(
    region: spec_fn(P) -> bool,
    vertices: Seq<P>,
    seed: P,
    first: usize,
    picks: Seq<usize>,
    midpoint: F,
    r: Seq<P>,
    i: int,
)
    requires
        vertices.len() == 3,
        first < 3,
        picks_valid(picks),
        is_chaos_sequence(vertices, seed, first, picks, midpoint, r),
        forall|i: int| 0 <= i < 3 ==> region(#[trigger] vertices[i]),
        region(seed),
        forall|a: P, b: P, m: P|
            region(a) && region(b) && #[trigger] midpoint.ensures((a, b), m) ==> region(m),
        0 <= i < r.len(),
    ensures
        region(r[i]),
    decreases i,
{
    if i == 0 {
        assert(region(vertices[first as int]));
    } else {
        lemma_point_in_region(region, vertices, seed, first, picks, midpoint, r, i - 1);
        assert(picks[i - 1] < 3);
        assert(region(vertices[picks[i - 1] as int]));
        assert(midpoint.ensures((vertices[picks[i - 1] as int], r[i - 1]), r[i]));
    }
}

/// When the midpoint gives one result for given points, the sequence is
/// fixed by the vertices, the seed and the picks: replaying the same random
/// draws replays the same points.
pub proof fn lemma_chaos_deterministic<P, F: Fn(P, P) -> P>(
    vertices: Seq<P>,
    seed: P,
    first: usize,
    picks: Seq<usize>,
    midpoint: F,
    r1: Seq<P>,
    r2: Seq<P>,
)
    requires
        is_chaos_sequence(vertices, seed, first, picks, midpoint, r1),
        is_chaos_sequence(vertices, seed, first, picks, midpoint, r2),
        forall|a: P, b: P, m1: P, m2: P|
            #[trigger] midpoint.ensures((a, b), m1) && #[trigger] midpoint.ensures((a, b), m2)
                ==> m1 == m2,
    ensures
        r1 == r2,
{
    assert forall|i: int| 0 <= i < r1.len() implies r1[i] == r2[i] by {
        lemma_same_point(vertices, seed, first, picks, midpoint, r1, r2, i);
    }
    assert(r1 =~= r2);
}

proof fn lemma_same_point<P, F: Fn(P, P) -> P>(
    vertices: Seq<P>,
    seed: P,
    first: usize,
    picks: Seq<usize>,
    midpoint: F,
    r1: Seq<P>,
    r2: Seq<P>,
    i: int,
)
    requires
        is_chaos_sequence(vertices, seed, first, picks, midpoint, r1),
        is_chaos_sequence(vertices, seed, first, picks, midpoint, r2),
        forall|a: P, b: P, m1: P, m2: P|
            #[trigger] midpoint.ensures((a, b), m1) && #[trigger] midpoint.ensures((a, b), m2)
                ==> m1 == m2,
        0 <= i < r1.len(),
    ensures
        r1[i] == r2[i],
    decreases i,
{
    if i > 0 {
        lemma_same_point(vertices, seed, first, picks, midpoint, r1, r2, i - 1);
        assert(midpoint.ensures((vertices[picks[i - 1] as int], r1[i - 1]), r1[i]));
        assert(midpoint.ensures((vertices[picks[i - 1] as int], r2[i - 1]), r2[i]));
    }
}

/// When containment and the midpoint each give one result for given points,
/// the whole generator is deterministic: the same candidates and picks give
/// the same outcome.
pub proof fn lemma_sierpinski_deterministic<P, C: Fn(P) -> bool, F: Fn(P, P) -> P>(
    vertices: Seq<P>,
    candidates: Seq<P>,
    first: usize,
    picks: Seq<usize>,
    contains: C,
    midpoint: F,
    r1: Option<Seq<P>>,
    r2: Option<Seq<P>>,
)
    requires
        is_sierpinski_result(vertices, candidates, first, picks, contains, midpoint, r1),
        is_sierpinski_result(vertices, candidates, first, picks, contains, midpoint, r2),
        forall|p: P, b1: bool, b2: bool|
            #[trigger] contains.ensures((p,), b1) && #[trigger] contains.ensures((p,), b2)
                ==> b1 == b2,
        forall|a: P, b: P, m1: P, m2: P|
            #[trigger] midpoint.ensures((a, b), m1) && #[trigger] midpoint.ensures((a, b), m2)
                ==> m1 == m2,
    ensures
        r1 == r2,
{
    match (r1, r2) {
        (Some(p1), Some(p2)) => {
            let i1 = choose|i: int|
                is_first_inside(candidates, contains, i) && is_chaos_sequence(
                    vertices,
                    candidates[i],
                    first,
                    picks,
                    midpoint,
                    p1,
                );
            let i2 = choose|i: int|
                is_first_inside(candidates, contains, i) && is_chaos_sequence(
                    vertices,
                    candidates[i],
                    first,
                    picks,
                    midpoint,
                    p2,
                );
            if i1 < i2 {
                assert(contains.ensures((candidates[i1],), false));
            } else if i2 < i1 {
                assert(contains.ensures((candidates[i2],), false));
            }
            lemma_chaos_deterministic(vertices, candidates[i1], first, picks, midpoint, p1, p2);
        },
        (Some(p1), None) => {
            let i1 = choose|i: int|
                is_first_inside(candidates, contains, i) && is_chaos_sequence(
                    vertices,
                    candidates[i],
                    first,
                    picks,
                    midpoint,
                    p1,
                );
            assert(contains.ensures((candidates[i1],), false));
        },
        (None, Some(p2)) => {
            let i2 = choose|i: int|
                is_first_inside(candidates, contains, i) && is_chaos_sequence(
                    vertices,
                    candidates[i],
                    first,
                    picks,
                    midpoint,
                    p2,
                );
            assert(contains.ensures((candidates[i2],), false));
        },
        (None, None) => {},
    }
}

} // verus!
