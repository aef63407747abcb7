use vstd::prelude::*;

verus! {

/// Index of the vertex that follows vertex `i` on a ring of `n` vertices: the
/// last vertex is followed by the first.
pub open spec fn next_index(n: int, i: int) -> int {
    (i + 1) % n
}

/// The edges of a polygon given as a ring of vertex ids: edge `i` runs from
/// vertex `i` to the next one, and the last edge closes the ring back to the
/// first vertex.
pub fn ring_edges(ring: &Vec<usize>) -> (r: Vec<(usize, usize)>)
    ensures
        r.len() == ring.len(),
        forall|i: int|
            0 <= i < ring.len() ==> #[trigger] r[i] == (ring[i], ring[next_index(
                ring.len() as int,
                i,
            )]),
{
    let n = ring.len();
    let mut edges: Vec<(usize, usize)> = Vec::new();
    let mut i: usize = 0;
    while i < n
        invariant
            n == ring.len(),
            i <= n,
            edges.len() == i,
            forall|j: int|
                0 <= j < i ==> #[trigger] edges[j] == (ring[j], ring[next_index(n as int, j)]),
        decreases n - i,
    {
        let next = (i + 1) % n;
        edges.push((ring[i], ring[next]));
        i = i + 1;
    }
    edges
}

} // verus!
