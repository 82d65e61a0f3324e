//! Timing statistics for the performance harness: ordering a series of
//! samples and picking its median entries. Samples are nanosecond counts.

use vstd::prelude::*;
use vstd::seq_lib::group_to_multiset_ensures;
use vstd::seq_lib::to_multiset_update;

verus! {

/// The entries stand in ascending order.
pub open spec fn sorted(s: Seq<u64>) -> bool {
    forall|a: int, b: int| 0 <= a < b < s.len() ==> s[a] <= s[b]
}

/// Swapping two entries keeps the bag of values.
proof fn lemma_swap_multiset(s: Seq<u64>, i: int, j: int)
    requires
        0 <= i < j < s.len(),
    ensures
        s.update(i, s[j]).update(j, s[i]).to_multiset() == s.to_multiset(),
{
    broadcast use group_to_multiset_ensures;
    broadcast use to_multiset_update;

    let s1 = s.update(i, s[j]);
    assert(s1[j] == s[j]);
    assert(s1.to_multiset() == s.to_multiset().insert(s[j]).remove(s[i]));
    assert(s1.update(j, s[i]).to_multiset() == s1.to_multiset().insert(s[i]).remove(s1[j]));
    assert(s.contains(s[i]));
    assert(s.to_multiset().count(s[i]) > 0);
    assert(s.to_multiset().insert(s[j]).remove(s[i]).insert(s[i]).remove(s[j])
        =~= s.to_multiset());
}

/// Sorts the entries in place, keeping the bag of values.
pub fn sort_u64(v: &mut Vec<u64>)
    ensures
        sorted(final(v)@),
        final(v)@.to_multiset() == old(v)@.to_multiset(),
{
    let n = v.len();
    if n == 0 {
        return;
    }
    let mut i: usize = 1;
    while i < n
        invariant
            1 <= i <= n,
            n == v@.len(),
            forall|a: int, b: int| 0 <= a < b < i ==> v@[a] <= v@[b],
            v@.to_multiset() == old(v)@.to_multiset(),
        decreases n - i,
    {
        let mut j: usize = i;
        while j > 0 && v[j - 1] > v[j]
            invariant
                j <= i < n,
                n == v@.len(),
                forall|a: int, b: int| 0 <= a < b <= i && b != j ==> v@[a] <= v@[b],
                v@.to_multiset() == old(v)@.to_multiset(),
            decreases j,
        {
            let ghost s = v@;
            let a = v[j - 1];
            let b = v[j];
            v.set(j - 1, b);
            v.set(j, a);
            proof {
                lemma_swap_multiset(s, j - 1, j as int);
                assert(v@ =~= s.update(j - 1, s[j as int]).update(j as int, s[j - 1]));
            }
            j = j - 1;
        }
        proof {
            assert forall|a: int, b: int| 0 <= a < b <= i implies v@[a] <= v@[b] by {
                if b == j {
                    assert(j > 0);
                    assert(v@[j - 1] <= v@[j as int]);
                    if a < j - 1 {
                        assert(v@[a] <= v@[j - 1]);
                    }
                }
            }
        }
        i = i + 1;
    }
}

/// The median of a series: the middle entry of an odd-sized series, and
/// the mean of the two middle entries, rounded down, of an even-sized one.
/// Empty series have no median.
pub fn median(times: &Vec<u64>) -> (r: Option<u64>)
    ensures
        times@.len() == 0 <==> r is None,
        times@.len() > 0 && times@.len() % 2 == 0 ==> r == Some(
            (((times@[times@.len() as int / 2 - 1] + times@[times@.len() as int / 2]) / 2) as u64),
        ),
        times@.len() > 0 && times@.len() % 2 != 0 ==> r == Some(times@[times@.len() as int / 2]),
{
    let n = times.len();
    if n == 0 {
        return None;
    }
    if n % 2 == 0 {
        let a = times[n / 2 - 1];
        let b = times[n / 2];
        // halves first, so that the sum cannot overflow
        let m = a / 2 + b / 2 + (a % 2 + b % 2) / 2;
        proof {
            assert(m == (a + b) / 2);
        }
        Some(m)
    } else {
        Some(times[n / 2])
    }
}

} // verus!
