//! Small algorithms over slices of integers.
use vstd::prelude::*;
use vstd::std_specs::iter::IteratorSpec;

verus! {

broadcast use vstd::seq_lib::group_to_multiset_ensures;

/// Whether `s` is in non-decreasing order.
pub open spec fn sorted(s: Seq<i32>) -> bool {
    forall|i: int, j: int| 0 <= i <= j < s.len() ==> s[i] <= s[j]
}

/// Merges two slices into one vector holding the items of both. When both are
/// sorted, so is the result; on equal items the one from `vec1` comes first.
pub fn merge_slices(vec1: &[i32], vec2: &[i32]) -> (r: Vec<i32>)
    ensures
        r@.to_multiset() == vec1@.to_multiset().add(vec2@.to_multiset()),
        sorted(vec1@) && sorted(vec2@) ==> sorted(r@),
{
    let mut r: Vec<i32> = Vec::new();
    let mut i: usize = 0;
    let mut j: usize = 0;
    while i < vec1.len() || j < vec2.len()
        invariant
            i <= vec1.len(),
            j <= vec2.len(),
            r@.to_multiset() == vec1@.take(i as int).to_multiset().add(
                vec2@.take(j as int).to_multiset(),
            ),
            sorted(vec1@) && sorted(vec2@) ==> {
                &&& sorted(r@)
                &&& r.len() > 0 && i < vec1.len() ==> r@.last() <= vec1@[i as int]
                &&& r.len() > 0 && j < vec2.len() ==> r@.last() <= vec2@[j as int]
            },
        decreases vec1.len() - i + vec2.len() - j,
    {
        let take_first = j >= vec2.len() || (i < vec1.len() && vec1[i] <= vec2[j]);
        if take_first {
            r.push(vec1[i]);
            assert(vec1@.take(i + 1) =~= vec1@.take(i as int).push(vec1@[i as int]));
            i = i + 1;
        } else {
            r.push(vec2[j]);
            assert(vec2@.take(j + 1) =~= vec2@.take(j as int).push(vec2@[j as int]));
            j = j + 1;
        }
    }
    assert(vec1@.take(i as int) =~= vec1@);
    assert(vec2@.take(j as int) =~= vec2@);
    r
}

/// The difference from item `i` of `s` to the next one.
pub open spec fn step(s: Seq<i32>, i: int) -> int {
    s[i + 1] - s[i]
}

/// The differences between neighbouring items: `nums[i + 1] - nums[i]` for each
/// `i`, in order. Every difference must fit in an `i32`.
pub fn adjacent_diff(nums: &[i32]) -> (it: std::vec::IntoIter<i32>)
    requires
        forall|i: int|
            0 <= i < nums.len() - 1 ==> i32::MIN <= #[trigger] step(nums@, i) <= i32::MAX,
    ensures
        nums.len() == 0 ==> it.remaining().len() == 0,
        nums.len() > 0 ==> it.remaining().len() == nums.len() - 1,
        forall|i: int| 0 <= i < nums.len() - 1 ==> it.remaining()[i] == step(nums@, i),
{
    let mut out: Vec<i32> = Vec::new();
    let mut i: usize = 1;
    while i < nums.len()
        invariant
            1 <= i,
            nums.len() > 0 ==> i <= nums.len(),
            nums.len() == 0 ==> i == 1,
            out.len() == i - 1,
            forall|i: int|
                0 <= i < nums.len() - 1 ==> i32::MIN <= #[trigger] step(nums@, i) <= i32::MAX,
            forall|k: int| 0 <= k < i - 1 ==> out[k] == step(nums@, k),
        decreases nums.len() - i,
    {
        assert(i32::MIN <= step(nums@, i - 1) <= i32::MAX);
        out.push(nums[i] - nums[i - 1]);
        i = i + 1;
    }
    out.into_iter()
}

} // verus!
