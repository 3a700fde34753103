use vstd::prelude::*;
use std::collections::HashMap;
use crate::result::members;

verus! {

broadcast use vstd::std_specs::hash::group_hash_axioms;

/// `group` holds, in order, clones of the items at the positions listed by
/// `positions`.
pub open spec fn clones_at<T: Clone>(items: Seq<T>, positions: Seq<usize>, group: Seq<T>) -> bool {
    &&& group.len() == positions.len()
    &&& forall|j: int|
        0 <= j < group.len() ==> cloned(items[positions[j] as int], #[trigger] group[j])
}

/// `groups` gathers the items by label: one entry per label that occurs, holding
/// clones of the items at that label's positions, in order.
pub open spec fn groups_items_by<T: Clone>(
    assignments: Seq<usize>,
    items: Seq<T>,
    groups: Map<usize, Vec<T>>,
) -> bool {
    &&& forall|k: usize| #[trigger]
        groups.contains_key(k) <==> members(assignments, k).len() > 0
    &&& forall|k: usize| #[trigger]
        groups.contains_key(k) ==> clones_at(items, members(assignments, k), groups[k]@)
}

/// Groups items by their cluster assignment: `items[i]` joins the group of
/// `cluster_assignments[i]`, groups keep the order of the items.
///
/// When the two slices differ in length the result is deliberately an empty
/// mapping, not an error and not a partial grouping.
pub fn group_by_cluster<T: Clone>(cluster_assignments: &[usize], items: &[T]) -> (r: HashMap<
    usize,
    Vec<T>,
>)
    ensures
        cluster_assignments@.len() != items@.len() ==> r@ == Map::<usize, Vec<T>>::empty(),
        cluster_assignments@.len() == items@.len() ==> groups_items_by(
            cluster_assignments@,
            items@,
            r@,
        ),
{
    let mut result: HashMap<usize, Vec<T>> = HashMap::new();
    if cluster_assignments.len() != items.len() {
        return result;
    }
    let mut i: usize = 0;
    while i < cluster_assignments.len()
        invariant
            i <= cluster_assignments@.len(),
            cluster_assignments@.len() == items@.len(),
            groups_items_by(cluster_assignments@.take(i as int), items@, result@),
        decreases cluster_assignments@.len() - i,
    {
        let k = cluster_assignments[i];
        let ghost before = cluster_assignments@.take(i as int);
        let ghost after = cluster_assignments@.take(i + 1);
        assert(after.drop_last() == before);
        assert(forall|m: usize|
            #[trigger] members(after, m) == if m == k {
                members(before, m).push(i)
            } else {
                members(before, m)
            });
        let ghost prev_group = if result@.contains_key(k) {
            result@[k]@
        } else {
            Seq::<T>::empty()
        };
        let mut group = match result.remove(&k) {
            Some(v) => v,
            None => Vec::new(),
        };
        assert(group@ == prev_group);
        let item = items[i].clone();
        group.push(item);
        assert(clones_at(items@, members(after, k), group@)) by {
            assert forall|j: int| 0 <= j < group@.len() implies cloned(
                items@[members(after, k)[j] as int],
                #[trigger] group@[j],
            ) by {
                if j < prev_group.len() {
                    assert(group@[j] == prev_group[j]);
                }
            }
        }
        result.insert(k, group);
        i += 1;
    }
    assert(cluster_assignments@.take(cluster_assignments@.len() as int) == cluster_assignments@);
    result
}

} // verus!
