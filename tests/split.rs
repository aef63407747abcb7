use polygon_cut::split::{split_ring, EdgeCrossing, Placement};

fn place(in_a: bool, in_b: bool) -> Placement {
    Placement { in_a, in_b }
}

fn hit(point: usize, is_first: bool, is_second: bool) -> Option<EdgeCrossing> {
    Some(EdgeCrossing { point, is_first, is_second })
}

// Unit square 0:(0,0) 1:(1,0) 2:(1,1) 3:(0,1), cut by the vertical x = 0.5:
// the bottom edge meets it at point 4, the top edge at point 5.
#[test]
fn vertical_cut_of_square() {
    let ring = vec![0, 1, 2, 3];
    let placements = vec![place(false, true), place(true, false), place(true, false), place(false, true)];
    let crossings = vec![hit(4, true, false), None, hit(5, false, true), None];
    let (a, b) = split_ring(&ring, 2, &placements, &crossings).unwrap();
    assert_eq!(a, vec![4, 1, 2, 5]);
    assert_eq!(b, vec![0, 4, 5, 3]);
}

// The diagonal through (0,0) and (1,1): both corners lie on the line, go to
// both fragments, and each crossing is inserted once though two edges meet it.
#[test]
fn diagonal_cut_shares_corners() {
    let ring = vec![0, 1, 2, 3];
    let placements = vec![place(true, true), place(true, false), place(true, true), place(false, true)];
    let crossings = vec![hit(4, true, false), hit(5, false, true), hit(6, false, true), hit(7, true, false)];
    let (a, b) = split_ring(&ring, 2, &placements, &crossings).unwrap();
    assert_eq!(a, vec![0, 4, 1, 5, 2]);
    assert_eq!(b, vec![0, 4, 5, 2, 3]);
}

#[test]
fn no_cut_unless_two_crossings() {
    let ring = vec![0, 1, 2, 3];
    let placements = vec![place(true, false); 4];
    let crossings = vec![None; 4];
    assert!(split_ring(&ring, 0, &placements, &crossings).is_none());
    assert!(split_ring(&ring, 1, &placements, &crossings).is_none());
    assert!(split_ring(&ring, 3, &placements, &crossings).is_none());
}

// A crossing that equals neither registered point is skipped.
#[test]
fn unmatched_crossing_is_skipped() {
    let ring = vec![0, 1, 2];
    let placements = vec![place(true, false), place(false, true), place(true, false)];
    let crossings = vec![hit(3, true, false), hit(4, false, false), hit(5, false, true)];
    let (a, b) = split_ring(&ring, 2, &placements, &crossings).unwrap();
    assert_eq!(a, vec![0, 3, 2, 5]);
    assert_eq!(b, vec![3, 1, 5]);
}

// An edge matching the first point after it was inserted falls back to the
// second point when that one is still free.
#[test]
fn second_slot_taken_after_first() {
    let ring = vec![0, 1, 2];
    let placements = vec![place(true, false), place(false, true), place(true, false)];
    let crossings = vec![hit(3, true, false), hit(4, true, true), hit(5, true, true)];
    let (a, b) = split_ring(&ring, 2, &placements, &crossings).unwrap();
    assert_eq!(a, vec![0, 3, 4, 2]);
    assert_eq!(b, vec![3, 1, 4]);
}

#[test]
fn empty_ring_splits_into_empty_fragments() {
    let (a, b) = split_ring(&vec![], 2, &vec![], &vec![]).unwrap();
    assert!(a.is_empty());
    assert!(b.is_empty());
}
