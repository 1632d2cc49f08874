//! The positions of a text that a predicate picks, in ascending order.

use vstd::prelude::*;

verus! {

/// The positions below `limit` at which `keep` holds, in ascending order.
pub open spec fn positions(limit: nat, keep: spec_fn(int) -> bool) -> Seq<int> {
    Seq::new(limit, |i: int| i).filter(keep)
}

/// Below zero there is no position.
pub proof fn lemma_positions_none(keep: spec_fn(int) -> bool)
    ensures
        positions(0, keep) == Seq::<int>::empty(),
{
    reveal(Seq::filter);
    assert(positions(0, keep) =~= Seq::<int>::empty());
}

/// Raising the limit by one adds the old limit where `keep` holds of it, and
/// nothing else.
pub proof fn lemma_positions_step(limit: nat, keep: spec_fn(int) -> bool)
    ensures
        positions(limit + 1, keep) == if keep(limit as int) {
            positions(limit, keep).push(limit as int)
        } else {
            positions(limit, keep)
        },
{
    let below = Seq::new(limit, |i: int| i);
    assert(Seq::new(limit + 1, |i: int| i) =~= below.push(limit as int));
    below.lemma_filter_push(limit as int, keep);
}

/// What `positions` lists: exactly the positions below `limit` at which `keep`
/// holds, each before the greater ones.
pub proof fn lemma_positions(limit: nat, keep: spec_fn(int) -> bool)
    ensures
        forall|k: int|
            0 <= k < positions(limit, keep).len() ==> 0 <= (#[trigger] positions(limit, keep)[k])
                < limit && keep(positions(limit, keep)[k]),
        forall|i: int| 0 <= i < limit && keep(i) ==> #[trigger] positions(limit, keep).contains(i),
        forall|a: int, b: int|
            0 <= a < b < positions(limit, keep).len() ==> (#[trigger] positions(limit, keep)[a])
                < (#[trigger] positions(limit, keep)[b]),
    decreases limit,
{
    let found = positions(limit, keep);
    if limit == 0 {
        lemma_positions_none(keep);
    } else {
        let last = (limit - 1) as nat;
        let earlier = positions(last, keep);
        lemma_positions(last, keep);
        lemma_positions_step(last, keep);
        assert forall|i: int| 0 <= i < limit && keep(i) implies #[trigger] found.contains(i) by {
            if i < last {
                assert(earlier.contains(i));
                let k = choose|k: int| 0 <= k < earlier.len() && earlier[k] == i;
                assert(found[k] == i);
            } else {
                assert(found[found.len() - 1] == i);
            }
        }
    }
}

} // verus!
