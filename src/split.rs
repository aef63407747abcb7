use vstd::prelude::*;

verus! {

/// On which side(s) of the cutting line a vertex was placed by the side test.
/// A vertex lying on the line (within tolerance) belongs to both fragments.
#[derive(Clone, Copy, Debug, PartialEq, Eq, Structural)]
pub struct Placement {
    pub in_a: bool,
    pub in_b: bool,
}

/// What the intersection test found on the edge from a vertex to the next one:
/// the id of the point where the cutting line meets that edge, and whether it
/// is exactly the first or the second of the two registered crossing points.
#[derive(Clone, Copy, Debug, PartialEq, Eq, Structural)]
pub struct EdgeCrossing {
    pub point: usize,
    pub is_first: bool,
    pub is_second: bool,
}

/// Which of the two registered crossings have been inserted, after one more
/// edge: the first one if the edge matches it and it is still free, else the
/// second one under the same terms.
pub open spec fn step(c: Option<EdgeCrossing>, done: (bool, bool)) -> (bool, bool) {
    match c {
        Some(e) => if e.is_first && !done.0 {
            (true, done.1)
        } else if e.is_second && !done.1 {
            (done.0, true)
        } else {
            done
        },
        None => done,
    }
}

/// Which of the two registered crossings have been inserted after the first
/// `k` edges.
pub open spec fn inserted(crossings: Seq<Option<EdgeCrossing>>, k: int) -> (bool, bool)
    decreases k,
{
    if k <= 0 {
        (false, false)
    } else {
        step(crossings[k - 1], inserted(crossings, k - 1))
    }
}

/// Whether the crossing point of edge `i` is inserted into both fragments.
pub open spec fn inserts_at(crossings: Seq<Option<EdgeCrossing>>, i: int) -> bool {
    step(crossings[i], inserted(crossings, i)) != inserted(crossings, i)
}

/// The fragment on one side (`a` picks side A, else side B) built from the
/// first `k` vertices: each vertex placed on that side, followed by the
/// crossing point of its outgoing edge where that edge inserts one.
pub open spec fn fragment(
    ring: Seq<usize>,
    placements: Seq<Placement>,
    crossings: Seq<Option<EdgeCrossing>>,
    a: bool,
    k: int,
) -> Seq<usize>
    decreases k,
{
    if k <= 0 {
        seq![]
    } else {
        let i = k - 1;
        let on_side = if a { placements[i].in_a } else { placements[i].in_b };
        let with_vertex = if on_side {
            fragment(ring, placements, crossings, a, i).push(ring[i])
        } else {
            fragment(ring, placements, crossings, a, i)
        };
        if inserts_at(crossings, i) {
            with_vertex.push(crossings[i].unwrap().point)
        } else {
            with_vertex
        }
    }
}

/// Number of the first `k` vertices that lie on side A (`a`) or side B.
pub open spec fn placed_count(placements: Seq<Placement>, a: bool, k: int) -> int
    decreases k,
{
    if k <= 0 {
        0
    } else {
        let on_side = if a { placements[k - 1].in_a } else { placements[k - 1].in_b };
        placed_count(placements, a, k - 1) + if on_side { 1int } else { 0int }
    }
}

/// Number of the first `k` edges whose crossing point is inserted.
pub open spec fn insertion_count(crossings: Seq<Option<EdgeCrossing>>, k: int) -> int
    decreases k,
{
    if k <= 0 {
        0
    } else {
        insertion_count(crossings, k - 1) + if inserts_at(crossings, k - 1) { 1int } else { 0int }
    }
}

/// Whether an edge's crossing is the first registered crossing point.
pub open spec fn hits_first(c: Option<EdgeCrossing>) -> bool {
    c matches Some(e) && e.is_first
}

/// Whether an edge's crossing is the second registered crossing point.
pub open spec fn hits_second(c: Option<EdgeCrossing>) -> bool {
    c matches Some(e) && e.is_second
}

/// Whether one of the first `k` edges meets the first registered crossing.
pub open spec fn meets_first(crossings: Seq<Option<EdgeCrossing>>, k: int) -> bool {
    exists|i: int| 0 <= i < k && hits_first(#[trigger] crossings[i])
}

/// Whether one of the first `k` edges meets the second registered crossing.
pub open spec fn meets_second(crossings: Seq<Option<EdgeCrossing>>, k: int) -> bool {
    exists|i: int| 0 <= i < k && hits_second(#[trigger] crossings[i])
}

/// No edge's crossing is equal to both registered crossings, as holds when
/// the two are distinct points.
pub open spec fn matches_exclusive(crossings: Seq<Option<EdgeCrossing>>) -> bool {
    forall|i: int|
        0 <= i < crossings.len() ==> !(hits_first(#[trigger] crossings[i]) && hits_second(
            crossings[i],
        ))
}

proof fn lemma_inserted_prefix(crossings: Seq<Option<EdgeCrossing>>, k: int)
    requires
        0 <= k <= crossings.len(),
        matches_exclusive(crossings),
    ensures
        inserted(crossings, k).0 == meets_first(crossings, k),
        inserted(crossings, k).1 == meets_second(crossings, k),
        insertion_count(crossings, k) == (if inserted(crossings, k).0 { 1int } else { 0int })
            + (if inserted(crossings, k).1 { 1int } else { 0int }),
    decreases k,
{
    if k > 0 {
        lemma_inserted_prefix(crossings, k - 1);
    }
}

proof fn lemma_fragment_len(
    ring: Seq<usize>,
    placements: Seq<Placement>,
    crossings: Seq<Option<EdgeCrossing>>,
    a: bool,
    k: int,
)
    requires
        0 <= k,
    ensures
        fragment(ring, placements, crossings, a, k).len() == placed_count(placements, a, k)
            + insertion_count(crossings, k),
    decreases k,
{
    if k > 0 {
        lemma_fragment_len(ring, placements, crossings, a, k - 1);
    }
}

/// Each of the two registered crossing points goes into each fragment at
/// most once, and exactly once when some edge meets it, whichever edges do:
/// a fragment holds the vertices placed on its side plus one point for each
/// registered crossing that the boundary meets. This holds as long as no
/// edge's crossing equals both registered points.
pub proof fn lemma_crossings_inserted_once(
    ring: Seq<usize>,
    placements: Seq<Placement>,
    crossings: Seq<Option<EdgeCrossing>>,
)
    requires
        placements.len() == ring.len(),
        crossings.len() == ring.len(),
        matches_exclusive(crossings),
    ensures
        insertion_count(crossings, ring.len() as int) == (if meets_first(
            crossings,
            ring.len() as int,
        ) {
            1int
        } else {
            0int
        }) + (if meets_second(crossings, ring.len() as int) {
            1int
        } else {
            0int
        }),
        fragment(ring, placements, crossings, true, ring.len() as int).len() == placed_count(
            placements,
            true,
            ring.len() as int,
        ) + insertion_count(crossings, ring.len() as int),
        fragment(ring, placements, crossings, false, ring.len() as int).len() == placed_count(
            placements,
            false,
            ring.len() as int,
        ) + insertion_count(crossings, ring.len() as int),
{
    lemma_inserted_prefix(crossings, ring.len() as int);
    lemma_fragment_len(ring, placements, crossings, true, ring.len() as int);
    lemma_fragment_len(ring, placements, crossings, false, ring.len() as int);
}

/// Splits the polygon `ring` (vertex ids, closed by the edge from the last
/// vertex back to the first) into the fragments on either side of a cutting
/// line. `distinct_crossings` is the number of distinct points where the line
/// meets the boundary; a cut is made only when it is exactly two. Otherwise
/// the result is `None` and the polygon stays as it is.
///
/// `placements[i]` says on which side(s) vertex `i` lies, `crossings[i]` what
/// the line does on the edge from vertex `i` to the next one. Walking the
/// edges in order, each vertex goes to its side(s), then the crossing point
/// of its edge goes to both fragments if it is one of the two registered
/// crossings not inserted yet.
pub fn split_ring(
    ring: &Vec<usize>,
    distinct_crossings: usize,
    placements: &Vec<Placement>,
    crossings: &Vec<Option<EdgeCrossing>>,
) -> (r: Option<(Vec<usize>, Vec<usize>)>)
    requires
        placements.len() == ring.len(),
        crossings.len() == ring.len(),
    ensures
        r.is_none() <==> distinct_crossings != 2,
        r matches Some((a, b)) ==> {
            &&& a@ == fragment(ring@, placements@, crossings@, true, ring.len() as int)
            &&& b@ == fragment(ring@, placements@, crossings@, false, ring.len() as int)
        },
{
    if distinct_crossings != 2 {
        return None;
    }
    let mut polygon_a: Vec<usize> = Vec::new();
    let mut polygon_b: Vec<usize> = Vec::new();
    let mut first_done = false;
    let mut second_done = false;
    let n = ring.len();
    let mut i: usize = 0;
    while i < n
        invariant
            n == ring.len(),
            placements.len() == n,
            crossings.len() == n,
            i <= n,
            (first_done, second_done) == inserted(crossings@, i as int),
            polygon_a@ == fragment(ring@, placements@, crossings@, true, i as int),
            polygon_b@ == fragment(ring@, placements@, crossings@, false, i as int),
        decreases n - i,
    {
        let vertex = ring[i];
        let placement = placements[i];
        if placement.in_a {
            polygon_a.push(vertex);
        }
        if placement.in_b {
            polygon_b.push(vertex);
        }
        match crossings[i] {
            Some(e) => {
                if e.is_first && !first_done {
                    polygon_a.push(e.point);
                    polygon_b.push(e.point);
                    first_done = true;
                } else if e.is_second && !second_done {
                    polygon_a.push(e.point);
                    polygon_b.push(e.point);
                    second_done = true;
                }
            },
            None => {},
        }
        i = i + 1;
    }
    Some((polygon_a, polygon_b))
}

} // verus!
