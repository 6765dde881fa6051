//! Facts about sequences that the rest of the crate leans on.

use vstd::prelude::*;

verus! {

/// What a filter lets through is an ordered part of what went in: every
/// element that comes out is one that went in, and two elements that come out
/// went in in the same order.
pub proof fn lemma_filter_is_ordered_part<A>(items: Seq<A>, test: spec_fn(A) -> bool)
    ensures
        forall|k: int|
            0 <= k < items.filter(test).len() ==> exists|i: int|
                k <= i < items.len() && items[i] == #[trigger] items.filter(test)[k],
        forall|k: int, l: int|
            0 <= k < l < items.filter(test).len() ==> exists|i: int, j: int|
                0 <= i < j < items.len() && items[i] == #[trigger] items.filter(test)[k]
                    && items[j] == #[trigger] items.filter(test)[l],
    decreases items.len(),
{
    reveal_with_fuel(Seq::filter, 1);
    if items.len() > 0 {
        let shorter = items.drop_last();
        let kept = items.filter(test);
        let before = shorter.filter(test);
        lemma_filter_is_ordered_part(shorter, test);
        shorter.lemma_filter_len(test);
        assert forall|k: int| 0 <= k < kept.len() implies exists|i: int|
            k <= i < items.len() && items[i] == #[trigger] kept[k] by {
            if k < before.len() {
                let i = choose|i: int| k <= i < shorter.len() && shorter[i] == before[k];
                assert(items[i] == kept[k]);
            } else {
                assert(items[items.len() - 1] == kept[k]);
            }
        }
        assert forall|k: int, l: int| 0 <= k < l < kept.len() implies exists|i: int, j: int|
            0 <= i < j < items.len() && items[i] == #[trigger] kept[k] && items[j]
                == #[trigger] kept[l] by {
            if l < before.len() {
                let (i, j) = choose|i: int, j: int|
                    0 <= i < j < shorter.len() && shorter[i] == before[k] && shorter[j]
                        == before[l];
                assert(items[i] == kept[k] && items[j] == kept[l]);
            } else {
                let i = choose|i: int| k <= i < shorter.len() && shorter[i] == before[k];
                assert(items[i] == kept[k] && items[items.len() - 1] == kept[l]);
            }
        }
    }
}

} // verus!
