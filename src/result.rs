use vstd::prelude::*;
use std::collections::HashMap;
use crate::error::ClusterError;

verus! {

broadcast use vstd::std_specs::hash::group_hash_axioms;

/// The positions `i` of `labels` with `labels[i] == k`, in ascending order.
pub open spec fn members(labels: Seq<usize>, k: usize) -> Seq<usize>
    decreases labels.len(),
{
    if labels.len() == 0 {
        Seq::empty()
    } else {
        let earlier = members(labels.drop_last(), k);
        if labels.last() == k {
            earlier.push((labels.len() - 1) as usize)
        } else {
            earlier
        }
    }
}

/// Whether label `k` is a real cluster id: under density-based clustering the
/// label 0 means noise, otherwise every label is a cluster.
pub open spec fn is_cluster_label(k: usize, density_based: bool) -> bool {
    !(density_based && k == 0)
}

/// The elements of `s` are pairwise distinct and each is below `n`.
pub open spec fn distinct_below(s: Seq<usize>, n: nat) -> bool {
    &&& forall|j: int| 0 <= j < s.len() ==> s[j] < n
    &&& forall|a: int, b: int| 0 <= a < b < s.len() ==> s[a] != s[b]
}

/// The label that `groups` give point `i`: the id of the last group that lists
/// it, or the noise label 0 when no group does.
pub open spec fn group_label(groups: Seq<(usize, Vec<usize>)>, i: usize) -> usize
    decreases groups.len(),
{
    if groups.len() == 0 {
        0
    } else if groups.last().1@.contains(i) {
        groups.last().0
    } else {
        group_label(groups.drop_last(), i)
    }
}

/// The per-point labels of `n` points that `groups` describe.
pub open spec fn group_labels(groups: Seq<(usize, Vec<usize>)>, n: nat) -> Seq<usize> {
    Seq::new(n, |i: int| group_label(groups, i as usize))
}

/// Every group has a positive id and lists only indices below `n`.
pub open spec fn groups_valid(groups: Seq<(usize, Vec<usize>)>, n: nat) -> bool {
    forall|g: int|
        0 <= g < groups.len() ==> groups[g].0 > 0 && forall|j: int|
            0 <= j < groups[g].1@.len() ==> #[trigger] groups[g].1@[j] < n
}

/// Result of a clustering operation.
#[derive(Debug, Clone)]
pub struct ClusteringResult {
    /// Cluster id to the ascending indices of the points in that cluster.
    pub clusters: HashMap<usize, Vec<usize>>,
    /// Ascending indices of the points that belong to no cluster.
    pub outliers: Vec<usize>,
    /// Cluster id of each point; under density-based clustering 0 marks noise.
    pub assignments: Vec<usize>,
}

impl ClusteringResult {
    /// This result is the one that the per-point `labels` describe.
    pub open spec fn models(&self, labels: Seq<usize>, density_based: bool) -> bool {
        &&& self.assignments@ == labels
        &&& forall|k: usize|
            #[trigger] self.clusters@.contains_key(k) <==> (members(labels, k).len() > 0
                && is_cluster_label(k, density_based))
        &&& forall|k: usize| #[trigger]
            self.clusters@.contains_key(k) ==> self.clusters@[k]@ == members(labels, k)
        &&& self.outliers@ == if density_based {
            members(labels, 0)
        } else {
            Seq::empty()
        }
    }

    /// The outliers and the member lists of the clusters split the indices
    /// `0..n` between them: each index is an outlier exactly when it carries
    /// the noise label, and is listed by exactly the cluster it is assigned to.
    pub open spec fn partitions(&self, n: nat, density_based: bool) -> bool {
        &&& self.assignments@.len() == n
        &&& distinct_below(self.outliers@, n)
        &&& forall|k: usize| #[trigger]
            self.clusters@.contains_key(k) ==> distinct_below(self.clusters@[k]@, n)
        &&& forall|i: usize|
            i < n ==> (#[trigger] self.outliers@.contains(i) <==> !is_cluster_label(
                self.assignments@[i as int],
                density_based,
            ))
        &&& forall|i: usize|
            i < n && is_cluster_label(#[trigger] self.assignments@[i as int], density_based)
                ==> self.clusters@.contains_key(self.assignments@[i as int])
        &&& forall|i: usize, k: usize|
            i < n && #[trigger] self.clusters@.contains_key(k) ==> (
            #[trigger] self.clusters@[k]@.contains(i) <==> self.assignments@[i as int] == k)
        &&& !self.clusters@.contains_key(0) || !density_based
    }

    /// Builds the result that per-point `labels` describe. With
    /// `density_based`, label 0 marks an outlier; otherwise every label is a
    /// cluster id and there are no outliers.
    pub fn from_labels(labels: &Vec<usize>, density_based: bool) -> (r: ClusteringResult)
        ensures
            r.models(labels@, density_based),
    {
        let mut clusters: HashMap<usize, Vec<usize>> = HashMap::new();
        let mut outliers: Vec<usize> = Vec::new();
        let mut assignments: Vec<usize> = Vec::new();
        let mut i: usize = 0;
        while i < labels.len()
            invariant
                i <= labels@.len(),
                assignments@ == labels@.take(i as int),
                forall|k: usize|
                    #[trigger] clusters@.contains_key(k) <==> (members(
                        labels@.take(i as int),
                        k,
                    ).len() > 0 && is_cluster_label(k, density_based)),
                forall|k: usize| #[trigger]
                    clusters@.contains_key(k) ==> clusters@[k]@ == members(
                        labels@.take(i as int),
                        k,
                    ),
                outliers@ == if density_based {
                    members(labels@.take(i as int), 0)
                } else {
                    Seq::empty()
                },
            decreases labels@.len() - i,
        {
            let k = labels[i];
            let ghost before = labels@.take(i as int);
            let ghost after = labels@.take(i + 1);
            assert(after.drop_last() == before);
            assert(forall|m: usize|
                #[trigger] members(after, m) == if m == k {
                    members(before, m).push(i)
                } else {
                    members(before, m)
                });
            assignments.push(k);
            if density_based && k == 0 {
                outliers.push(i);
            } else {
                let mut list = match clusters.remove(&k) {
                    Some(v) => v,
                    None => Vec::new(),
                };
                list.push(i);
                clusters.insert(k, list);
            }
            i += 1;
        }
        assert(labels@.take(labels@.len() as int) == labels@);
        ClusteringResult { clusters, outliers, assignments }
    }

    /// Builds the density-based result for `n` points from the clusters that
    /// a density-based fit reports, each a positive id with its member
    /// indices; points that no cluster lists are outliers. Fails with
    /// `FitError` when an id is 0 or a member index is not below `n`.
    pub fn from_groups(n: usize, groups: &Vec<(usize, Vec<usize>)>) -> (r: Result<
        ClusteringResult,
        ClusterError,
    >)
        ensures
            r.is_ok() <==> groups_valid(groups@, n as nat),
            match r {
                Ok(res) => res.models(group_labels(groups@, n as nat), true)
                    && res.assignments@.len() == n,
                Err(e) => e == ClusterError::FitError,
            },
    {
        let mut labels: Vec<usize> = Vec::new();
        let mut i: usize = 0;
        while i < n
            invariant
                i <= n,
                labels@ == Seq::new(i as nat, |t: int| 0usize),
            decreases n - i,
        {
            labels.push(0);
            i += 1;
        }
        let mut g: usize = 0;
        while g < groups.len()
            invariant
                g <= groups@.len(),
                labels@.len() == n,
                groups_valid(groups@.take(g as int), n as nat),
                forall|p: usize| p < n ==> labels@[p as int] == group_label(groups@.take(g as int), p),
            decreases groups@.len() - g,
        {
            let ghost upto = groups@.take(g as int);
            let ghost next = groups@.take(g + 1);
            assert(next.drop_last() == upto);
            let id = groups[g].0;
            if id == 0 {
                return Err(ClusterError::FitError);
            }
            let list = &groups[g].1;
            let mut j: usize = 0;
            while j < list.len()
                invariant
                    j <= list@.len(),
                    g < groups@.len(),
                    labels@.len() == n,
                    list == &groups@[g as int].1,
                    forall|t: int| 0 <= t < j ==> list@[t] < n,
                    forall|p: usize|
                        p < n ==> labels@[p as int] == if list@.take(j as int).contains(p) {
                            id
                        } else {
                            group_label(upto, p)
                        },
                decreases list@.len() - j,
            {
                let idx = list[j];
                if idx >= n {
                    assert(!groups_valid(groups@, n as nat)) by {
                        assert(groups@[g as int].1@[j as int] >= n);
                    }
                    return Err(ClusterError::FitError);
                }
                assert forall|p: usize| p != idx implies (#[trigger] list@.take(j + 1).contains(p)
                    <==> list@.take(j as int).contains(p)) by {
                    if list@.take(j + 1).contains(p) {
                        let t = choose|t: int| 0 <= t < j + 1 && #[trigger] list@.take(j + 1)[t] == p;
                        assert(list@.take(j as int)[t] == p);
                    }
                    if list@.take(j as int).contains(p) {
                        let t = choose|t: int| 0 <= t < j && #[trigger] list@.take(j as int)[t] == p;
                        assert(list@.take(j + 1)[t] == p);
                    }
                }
                assert(list@.take(j + 1)[j as int] == idx);
                labels.set(idx, id);
                j += 1;
            }
            assert(list@.take(list@.len() as int) == list@);
            g += 1;
        }
        assert(groups@.take(groups@.len() as int) == groups@);
        let ghost want = group_labels(groups@, n as nat);
        assert(labels@ == want);
        Ok(ClusteringResult::from_labels(&labels, true))
    }
}

/// Facts about `members`: each listed position holds `k`, the positions
/// ascend strictly, and every position that holds `k` is listed.
pub proof fn lemma_members(labels: Seq<usize>, k: usize)
    requires
        labels.len() <= usize::MAX,
    ensures
        forall|j: int|
            0 <= j < members(labels, k).len() ==> #[trigger] members(labels, k)[j] < labels.len()
                && labels[members(labels, k)[j] as int] == k,
        forall|a: int, b: int|
            0 <= a < b < members(labels, k).len() ==> #[trigger] members(labels, k)[a]
                < #[trigger] members(labels, k)[b],
        forall|i: usize|
            i < labels.len() && labels[i as int] == k ==> #[trigger] members(labels, k).contains(i),
    decreases labels.len(),
{
    if labels.len() > 0 {
        let prev = labels.drop_last();
        lemma_members(prev, k);
        let last = (labels.len() - 1) as usize;
        assert forall|i: usize| i < labels.len() && labels[i as int] == k implies #[trigger] members(
            labels,
            k,
        ).contains(i) by {
            if i == last {
                assert(members(labels, k).last() == i);
            } else {
                assert(prev[i as int] == k);
                assert(members(prev, k).contains(i));
                let j = choose|j: int| 0 <= j < members(prev, k).len() && members(prev, k)[j] == i;
                assert(members(labels, k)[j] == i);
            }
        }
    }
}

impl ClusteringResult {
    /// A result built from labels splits the point indices: every index is
    /// either an outlier, exactly when it carries the noise label, or listed
    /// by the one cluster it is assigned to, and by no other; no list repeats
    /// an index, and under density-based clustering no cluster has id 0.
    pub proof fn lemma_result_partitions(&self, labels: Seq<usize>, density_based: bool)
        requires
            self.models(labels, density_based),
            labels.len() <= usize::MAX,
        ensures
            self.partitions(labels.len(), density_based),
    {
        let n = labels.len();
        lemma_members(labels, 0);
        assert forall|k: usize| #[trigger] self.clusters@.contains_key(k) implies distinct_below(
            self.clusters@[k]@,
            n,
        ) by {
            lemma_members(labels, k);
        }
        assert forall|i: usize|
            i < n && is_cluster_label(#[trigger] self.assignments@[i as int], density_based)
                implies self.clusters@.contains_key(self.assignments@[i as int]) by {
            lemma_members(labels, labels[i as int]);
            assert(members(labels, labels[i as int]).contains(i));
        }
        assert forall|i: usize, k: usize|
            i < n && #[trigger] self.clusters@.contains_key(k) implies (
            #[trigger] self.clusters@[k]@.contains(i) <==> self.assignments@[i as int] == k) by {
            lemma_members(labels, k);
        }
        assert forall|i: usize| i < n implies (#[trigger] self.outliers@.contains(i)
            <==> !is_cluster_label(self.assignments@[i as int], density_based)) by {
            if density_based {
                assert(members(labels, 0).contains(i) <==> labels[i as int] == 0);
            }
        }
    }
}

} // verus!
