use vstd::prelude::*;

verus! {

/// The working set after one cutting line, built from the first `k`
/// fragments: a fragment that the line split is replaced by its two parts,
/// in order; one that it did not split is carried over unchanged.
pub open spec fn after_cut(
    fragments: Seq<Vec<usize>>,
    outcomes: Seq<Option<(Vec<usize>, Vec<usize>)>>,
    k: int,
) -> Seq<Seq<usize>>
    decreases k,
{
    if k <= 0 {
        seq![]
    } else {
        let before = after_cut(fragments, outcomes, k - 1);
        match outcomes[k - 1] {
            Some((a, b)) => before.push(a@).push(b@),
            None => before.push(fragments[k - 1]@),
        }
    }
}

/// The rings that a working set holds, as sequences of vertex ids.
pub open spec fn rings(fragments: Seq<Vec<usize>>) -> Seq<Seq<usize>> {
    fragments.map_values(|f: Vec<usize>| f@)
}

/// A line that splits none of the fragments leaves the working set as it
/// was: no fragment is dropped or changed.
pub proof fn lemma_missed_cut_keeps_set(
    fragments: Seq<Vec<usize>>,
    outcomes: Seq<Option<(Vec<usize>, Vec<usize>)>>,
)
    requires
        outcomes.len() == fragments.len(),
        forall|i: int| 0 <= i < outcomes.len() ==> (#[trigger] outcomes[i]).is_none(),
    ensures
        after_cut(fragments, outcomes, fragments.len() as int) == rings(fragments),
{
    lemma_missed_prefix(fragments, outcomes, fragments.len() as int);
    assert(rings(fragments).subrange(0, fragments.len() as int) =~= rings(fragments));
}

proof fn lemma_missed_prefix(
    fragments: Seq<Vec<usize>>,
    outcomes: Seq<Option<(Vec<usize>, Vec<usize>)>>,
    k: int,
)
    requires
        outcomes.len() == fragments.len(),
        0 <= k <= fragments.len(),
        forall|i: int| 0 <= i < outcomes.len() ==> (#[trigger] outcomes[i]).is_none(),
    ensures
        after_cut(fragments, outcomes, k) == rings(fragments).subrange(0, k),
    decreases k,
{
    if k > 0 {
        lemma_missed_prefix(fragments, outcomes, k - 1);
        assert(rings(fragments).subrange(0, k) =~= rings(fragments).subrange(0, k - 1).push(
            fragments[k - 1]@,
        ));
    }
}

fn copy_ring(v: &Vec<usize>) -> (r: Vec<usize>)
    ensures
        r@ == v@,
{
    let r = v.clone();
    assert(r@ =~= v@);
    r
}

/// Applies one cutting line to the working set: `outcomes[i]` is what
/// splitting `fragments[i]` by the line gave. Each split fragment is replaced
/// by its two parts, each other fragment is kept; the order is kept.
pub fn apply_cut(
    fragments: &Vec<Vec<usize>>,
    outcomes: &Vec<Option<(Vec<usize>, Vec<usize>)>>,
) -> (r: Vec<Vec<usize>>)
    requires
        outcomes.len() == fragments.len(),
    ensures
        rings(r@) == after_cut(fragments@, outcomes@, fragments.len() as int),
{
    let mut next: Vec<Vec<usize>> = Vec::new();
    let n = fragments.len();
    let mut i: usize = 0;
    while i < n
        invariant
            n == fragments.len(),
            outcomes.len() == n,
            i <= n,
            rings(next@) == after_cut(fragments@, outcomes@, i as int),
        decreases n - i,
    {
        let ghost before = next@;
        match &outcomes[i] {
            Some((a, b)) => {
                next.push(copy_ring(a));
                next.push(copy_ring(b));
            },
            None => {
                next.push(copy_ring(&fragments[i]));
            },
        }
        assert(rings(next@) =~= after_cut(fragments@, outcomes@, i + 1));
        i = i + 1;
    }
    next
}

} // verus!
