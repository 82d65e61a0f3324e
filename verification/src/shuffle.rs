//! Seeded shuffling. The random rearrangement itself comes from an outside
//! generator; the library works with the resulting order through verified
//! permutation reasoning.

use vstd::prelude::*;
use vstd::seq_lib::group_to_multiset_ensures;
use rand::SeedableRng;
use rand::seq::SliceRandom;

verus! {

/// The order in which the seeded shuffle leaves the entries of `s`.
pub uninterp spec fn shuffle_of(s: Seq<usize>, seed: u64) -> Seq<usize>;

/// Relies on rand::seq::SliceRandom::shuffle, driven by
/// rand::rngs::StdRng::seed_from_u64: the shuffle rearranges the slice in
/// place by swaps, and the generator it draws from is a deterministic
/// function of the seed alone.
#[verifier::external_body]
pub(crate) fn shuffle_positions(v: &mut Vec<usize>, seed: u64)
    ensures
        final(v)@ == shuffle_of(old(v)@, seed),
        final(v)@.to_multiset() == old(v)@.to_multiset(),
{
    let mut rng = rand::rngs::StdRng::seed_from_u64(seed);
    v.shuffle(&mut rng);
}

/// The positions 0, 1, ..., n-1 in order.
pub open spec fn identity_seq(n: nat) -> Seq<usize> {
    Seq::new(n, |i: int| i as usize)
}

/// `s` rearranged to the order `idx`: the element at position `i` of the
/// result is `s[idx[i]]`.
pub open spec fn select_seq<T>(s: Seq<T>, idx: Seq<usize>) -> Seq<T> {
    idx.map_values(|j: usize| s[j as int])
}

/// `idx` is a rearrangement of the positions 0..n.
pub open spec fn is_permutation_of(idx: Seq<usize>, n: nat) -> bool {
    idx.to_multiset() == identity_seq(n).to_multiset()
}

/// The positions 0, 1, ..., n-1 as a vector.
pub fn identity_vec(n: usize) -> (v: Vec<usize>)
    ensures
        v@ == identity_seq(n as nat),
{
    let mut v: Vec<usize> = Vec::new();
    let mut i: usize = 0;
    while i < n
        invariant
            i <= n,
            v@ == identity_seq(i as nat),
        decreases n - i,
    {
        v.push(i);
        proof {
            assert(v@ =~= identity_seq(i as nat + 1));
        }
        i = i + 1;
    }
    v
}

/// A seeded rearrangement of the positions 0..n.
pub fn shuffled_permutation(n: usize, seed: u64) -> (v: Vec<usize>)
    ensures
        v@ == shuffle_of(identity_seq(n as nat), seed),
        is_permutation_of(v@, n as nat),
{
    let mut v = identity_vec(n);
    shuffle_positions(&mut v, seed);
    v
}

/// The strings of `v` rearranged to the order `idx`.
pub fn select_strings(v: &Vec<String>, idx: &Vec<usize>) -> (r: Vec<String>)
    requires
        forall|i: int| 0 <= i < idx@.len() ==> (#[trigger] idx@[i]) < v@.len(),
    ensures
        r@ == select_seq(v@, idx@),
{
    let mut r: Vec<String> = Vec::new();
    let mut i: usize = 0;
    while i < idx.len()
        invariant
            i <= idx@.len(),
            forall|j: int| 0 <= j < idx@.len() ==> (#[trigger] idx@[j]) < v@.len(),
            r@.len() == i,
            forall|j: int| 0 <= j < i ==> #[trigger] r@[j] == v@[idx@[j] as int],
        decreases idx@.len() - i,
    {
        r.push(v[idx[i]].clone());
        i = i + 1;
    }
    proof {
        assert(r@ =~= select_seq(v@, idx@));
    }
    r
}

/// A permutation of 0..n has length n and all its entries below n.
pub proof fn lemma_permutation_in_range(idx: Seq<usize>, n: nat)
    requires
        is_permutation_of(idx, n),
        n <= usize::MAX,
    ensures
        idx.len() == n,
        forall|i: int| 0 <= i < idx.len() ==> (#[trigger] idx[i]) < n,
{
    broadcast use group_to_multiset_ensures;

    assert(idx.to_multiset().len() == idx.len());
    assert(identity_seq(n).to_multiset().len() == identity_seq(n).len());
    assert forall|i: int| 0 <= i < idx.len() implies (#[trigger] idx[i]) < n by {
        assert(idx.contains(idx[i]));
        assert(idx.to_multiset().count(idx[i]) > 0);
        assert(identity_seq(n).to_multiset().count(idx[i]) > 0);
        assert(identity_seq(n).contains(idx[i]));
        let j = choose|j: int| 0 <= j < identity_seq(n).len() && identity_seq(n)[j] == idx[i];
        assert(identity_seq(n)[j] == j as usize);
    }
}

/// Rearranging `s` by two orders made of the same positions yields the same
/// bag of elements.
pub proof fn lemma_select_multiset<T>(s: Seq<T>, idx1: Seq<usize>, idx2: Seq<usize>)
    requires
        idx1.to_multiset() == idx2.to_multiset(),
    ensures
        select_seq(s, idx1).to_multiset() == select_seq(s, idx2).to_multiset(),
    decreases idx1.len(),
{
    broadcast use group_to_multiset_ensures;

    if idx1.len() == 0 {
        assert(idx1.to_multiset().len() == 0);
        assert(idx2.to_multiset().len() == idx2.len());
        assert(select_seq(s, idx1) =~= Seq::<T>::empty());
        assert(select_seq(s, idx2) =~= Seq::<T>::empty());
    } else {
        let n1 = idx1.len() - 1;
        let a = idx1.last();
        assert(idx1.contains(a));
        assert(idx1.to_multiset().count(a) > 0);
        assert(idx2.to_multiset().count(a) > 0);
        assert(idx2.contains(a));
        let i = choose|i: int| 0 <= i < idx2.len() && idx2[i] == a;
        assert(idx1.remove(n1) =~= idx1.drop_last());
        assert(idx1.remove(n1).to_multiset() == idx1.to_multiset().remove(a));
        assert(idx2.remove(i).to_multiset() == idx2.to_multiset().remove(a));
        lemma_select_multiset(s, idx1.drop_last(), idx2.remove(i));
        let x = s[a as int];
        assert(select_seq(s, idx1) =~= select_seq(s, idx1.drop_last()).push(x));
        assert(select_seq(s, idx1).to_multiset() == select_seq(s, idx1.drop_last()).to_multiset().insert(x));
        assert(select_seq(s, idx2.remove(i)) =~= select_seq(s, idx2).remove(i));
        assert(select_seq(s, idx2).remove(i).to_multiset() == select_seq(s, idx2).to_multiset().remove(select_seq(s, idx2)[i]));
        assert(select_seq(s, idx2)[i] == x);
        assert(select_seq(s, idx2).contains(x));
        assert(select_seq(s, idx2).to_multiset().count(x) > 0);
        assert(select_seq(s, idx1).to_multiset() =~= select_seq(s, idx2).to_multiset());
    }
}

/// Rearranging `s` by a permutation of its positions keeps the bag of
/// elements.
pub proof fn lemma_select_permutation<T>(s: Seq<T>, perm: Seq<usize>)
    requires
        is_permutation_of(perm, s.len()),
        s.len() <= usize::MAX,
    ensures
        select_seq(s, perm).to_multiset() == s.to_multiset(),
{
    lemma_select_multiset(s, perm, identity_seq(s.len()));
    assert(select_seq(s, identity_seq(s.len())) =~= s);
}

} // verus!
