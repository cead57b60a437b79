//! A lemma on filtered sequences.

use vstd::prelude::*;

verus! {

/// A filtered sequence holds exactly the items that meet the predicate. Where
/// all do, it is the sequence itself, so filtering once more changes nothing.
pub proof fn filter_is_exact<A>(items: Seq<A>, keep: spec_fn(A) -> bool)
    ensures
        forall|i: int|
            0 <= i < items.filter(keep).len() ==> keep(#[trigger] items.filter(keep)[i])
                && items.contains(items.filter(keep)[i]),
        forall|i: int|
            0 <= i < items.len() && keep(#[trigger] items[i]) ==> items.filter(keep).contains(
                items[i],
            ),
        (forall|i: int| 0 <= i < items.len() ==> keep(#[trigger] items[i])) ==> items.filter(keep)
            == items,
        items.filter(keep).filter(keep) == items.filter(keep),
    decreases items.len(),
{
    reveal(Seq::filter);
    let kept = items.filter(keep);
    if items.len() > 0 {
        let init = items.drop_last();
        filter_is_exact(init, keep);
        let before = init.filter(keep);
        assert forall|i: int| 0 <= i < kept.len() implies keep(#[trigger] kept[i])
            && items.contains(kept[i]) by {
            if i < before.len() {
                assert(kept[i] == before[i]);
                let j = choose|j: int| 0 <= j < init.len() && init[j] == before[i];
                assert(items[j] == kept[i]);
            } else {
                assert(items[items.len() - 1] == kept[i]);
            }
        }
        assert forall|i: int| 0 <= i < items.len() && keep(#[trigger] items[i]) implies kept.contains(
            items[i],
        ) by {
            if i < init.len() {
                assert(init[i] == items[i]);
                assert(before.contains(init[i]));
                let j = choose|j: int| 0 <= j < before.len() && before[j] == items[i];
                assert(kept[j] == items[i]);
            } else {
                assert(kept[kept.len() - 1] == items[i]);
            }
        }
        if forall|i: int| 0 <= i < items.len() ==> keep(#[trigger] items[i]) {
            assert forall|i: int| 0 <= i < init.len() implies keep(#[trigger] init[i]) by {
                assert(init[i] == items[i]);
            }
            assert(keep(items[items.len() - 1]));
            assert(init.push(items.last()) =~= items);
        }
        if keep(items.last()) {
            assert(kept.drop_last() =~= before);
        }
    }
}

} // verus!
