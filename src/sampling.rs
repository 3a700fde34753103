use vstd::prelude::*;
use rand::seq::SliceRandom;
use rand::SeedableRng;
use rand_xoshiro::Xoshiro256Plus;

verus! {

broadcast use vstd::seq_lib::group_to_multiset_ensures;

/// Seed of the shuffle that picks a sample of points.
pub const SAMPLE_SEED: u64 = 42;

/// The order in which a shuffle seeded with `seed` leaves `v`.
pub uninterp spec fn seeded_shuffle(v: Seq<usize>, seed: u64) -> Seq<usize>;

/// Relies on `rand::seq::SliceRandom::shuffle` driven by
/// `rand_xoshiro::Xoshiro256Plus::seed_from_u64(seed)`: the shuffle only swaps
/// elements, so it rearranges `v`, and the seeded generator fixes the order.
#[verifier::external_body]
fn shuffle_with_seed(v: &mut Vec<usize>, seed: u64)
    ensures
        final(v)@ == seeded_shuffle(old(v)@, seed),
        final(v)@.to_multiset() == old(v)@.to_multiset(),
{
    let mut rng = Xoshiro256Plus::seed_from_u64(seed);
    v.shuffle(&mut rng);
}

/// The indices `0..n` in order.
pub open spec fn index_range(n: nat) -> Seq<usize> {
    Seq::new(n, |i: int| i as usize)
}

/// The elements of `s` ascend strictly.
pub open spec fn strictly_ascending(s: Seq<usize>) -> bool {
    forall|a: int, b: int| 0 <= a < b < s.len() ==> s[a] < s[b]
}

/// The smaller of two sizes.
pub open spec fn min_size(a: usize, b: usize) -> usize {
    if a < b {
        a
    } else {
        b
    }
}

/// The indices of the points of an `n`-point dataset that an embedding uses.
///
/// Without a sample size these are all of `0..n`. With one, they are the
/// first `min(size, n)` indices of `0..n` after a shuffle seeded with
/// `SAMPLE_SEED`, returned in ascending order.
pub fn sample_indices(n: usize, sample_size: Option<usize>) -> (r: Vec<usize>)
    ensures
        match sample_size {
            None => r@ == index_range(n as nat),
            Some(size) => {
                &&& strictly_ascending(r@)
                &&& r@.len() == min_size(size, n)
                &&& r@.to_set() == seeded_shuffle(index_range(n as nat), SAMPLE_SEED).take(
                    min_size(size, n) as int,
                ).to_set()
            },
        },
{
    let mut order: Vec<usize> = Vec::new();
    let mut i: usize = 0;
    while i < n
        invariant
            i <= n,
            order@ == index_range(i as nat),
        decreases n - i,
    {
        order.push(i);
        i += 1;
        assert(order@ == index_range(i as nat));
    }
    let size = match sample_size {
        None => {
            return order;
        },
        Some(size) => size,
    };
    let take = if size < n {
        size
    } else {
        n
    };
    let ghost range = order@;
    shuffle_with_seed(&mut order, SAMPLE_SEED);
    assert(order@.len() == n) by {
        assert(order@.to_multiset().len() == order@.len());
        assert(range.to_multiset().len() == range.len());
    }
    assert forall|j: int| 0 <= j < order@.len() implies #[trigger] order@[j] < n by {
        assert(order@.contains(order@[j]));
        assert(order@.to_multiset().count(order@[j]) > 0);
        assert(range.contains(order@[j]));
    }
    let mut chosen: Vec<bool> = Vec::new();
    let mut c: usize = 0;
    while c < n
        invariant
            c <= n,
            chosen@ == Seq::new(c as nat, |t: int| false),
        decreases n - c,
    {
        chosen.push(false);
        c += 1;
    }
    let mut j: usize = 0;
    while j < take
        invariant
            j <= take <= n,
            order@.len() == n,
            forall|t: int| 0 <= t < order@.len() ==> #[trigger] order@[t] < n,
            chosen@.len() == n,
            forall|x: usize| x < n ==> (chosen@[x as int] <==> order@.take(j as int).contains(x)),
        decreases take - j,
    {
        let pick = order[j];
        assert forall|x: usize| x != pick implies (#[trigger] order@.take(j + 1).contains(x)
            <==> order@.take(j as int).contains(x)) by {
            if order@.take(j + 1).contains(x) {
                let t = choose|t: int| 0 <= t < j + 1 && #[trigger] order@.take(j + 1)[t] == x;
                assert(order@.take(j as int)[t] == x);
            }
            if order@.take(j as int).contains(x) {
                let t = choose|t: int| 0 <= t < j && #[trigger] order@.take(j as int)[t] == x;
                assert(order@.take(j + 1)[t] == x);
            }
        }
        assert(order@.take(j + 1)[j as int] == pick);
        chosen.set(pick, true);
        j += 1;
    }
    let mut r: Vec<usize> = Vec::new();
    let mut x: usize = 0;
    while x < n
        invariant
            x <= n,
            chosen@.len() == n,
            strictly_ascending(r@),
            forall|t: int| 0 <= t < r@.len() ==> #[trigger] r@[t] < x,
            forall|y: usize| #[trigger] r@.contains(y) <==> (y < x && chosen@[y as int]),
        decreases n - x,
    {
        let ghost before = r@;
        if chosen[x] {
            r.push(x);
            assert forall|y: usize| #[trigger] r@.contains(y) <==> (before.contains(y) || y == x) by {
                if r@.contains(y) && y != x {
                    let t = choose|t: int| 0 <= t < r@.len() && #[trigger] r@[t] == y;
                    assert(before[t] == y);
                }
                if before.contains(y) {
                    let t = choose|t: int| 0 <= t < before.len() && #[trigger] before[t] == y;
                    assert(r@[t] == y);
                }
                if y == x {
                    assert(r@[before.len() as int] == x);
                }
            }
        }
        x += 1;
    }
    proof {
        let picked = order@.take(take as int);
        assert(seeded_shuffle(index_range(n as nat), SAMPLE_SEED) == order@);
        assert forall|y: usize| r@.contains(y) <==> picked.contains(y) by {
            if picked.contains(y) {
                let t = choose|t: int| 0 <= t < picked.len() && #[trigger] picked[t] == y;
                assert(order@[t] == y);
            }
        }
        assert(r@.to_set() =~= picked.to_set());
        range.lemma_multiset_has_no_duplicates();
        order@.lemma_multiset_has_no_duplicates_conv();
        assert(picked.no_duplicates());
        assert(r@.no_duplicates());
        r@.unique_seq_to_set();
        picked.unique_seq_to_set();
    }
    r
}

} // verus!
