//! Nested selection ranges around a position.
use vstd::prelude::*;
use crate::types::Range;

verus! {

/// The ranges of a chain of nodes, outermost first, with each range that
/// equals the one kept before it left out.
pub open spec fn nested_ranges(path: Seq<Range>) -> Seq<Range>
    decreases path.len(),
{
    if path.len() == 0 {
        Seq::empty()
    } else {
        let kept = nested_ranges(path.drop_last());
        if kept.len() > 0 && kept.last() == path.last() {
            kept
        } else {
            kept.push(path.last())
        }
    }
}

/// For each chain of node ranges from the root down to the node at a
/// position, the selection ranges to offer, outermost first: a node whose
/// range equals its parent's adds no step.
pub fn selection_range(paths: &Vec<Vec<Range>>) -> (r: Vec<Vec<Range>>)
    ensures
        r@.len() == paths@.len(),
        forall|i: int| 0 <= i < r@.len() ==> #[trigger] r@[i]@ == nested_ranges(paths@[i]@),
{
    let mut result: Vec<Vec<Range>> = Vec::new();
    let mut i: usize = 0;
    while i < paths.len()
        invariant
            i <= paths@.len(),
            result@.len() == i,
            forall|j: int| 0 <= j < i ==> #[trigger] result@[j]@ == nested_ranges(paths@[j]@),
        decreases paths.len() - i,
    {
        let path = &paths[i];
        let mut kept: Vec<Range> = Vec::new();
        let mut k: usize = 0;
        while k < path.len()
            invariant
                k <= path@.len(),
                kept@ == nested_ranges(path@.subrange(0, k as int)),
            decreases path.len() - k,
        {
            let range = path[k];
            proof {
                let sub = path@.subrange(0, k + 1);
                assert(sub.drop_last() =~= path@.subrange(0, k as int));
                assert(sub.last() == range);
            }
            if kept.len() == 0 || kept[kept.len() - 1] != range {
                kept.push(range);
            }
            k = k + 1;
        }
        assert(path@.subrange(0, k as int) =~= path@);
        result.push(kept);
        i = i + 1;
    }
    result
}

} // verus!
