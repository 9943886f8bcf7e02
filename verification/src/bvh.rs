use vstd::prelude::*;

verus! {

/// How a BVH node over the objects `start..end` splits them.
pub enum BvhSplit {
    /// One object: both children are that object.
    Single(usize),
    /// Two objects: one child each.
    Pair(usize, usize),
    /// More objects: after sorting, the halves `start..mid` and `mid..end`.
    Halves(usize),
}

/// The split of a BVH node over `start..end`, as a spec value.
pub open spec fn split_spec(start: int, end: int) -> BvhSplit {
    if end - start == 1 {
        BvhSplit::Single(start as usize)
    } else if end - start == 2 {
        BvhSplit::Pair(start as usize, (start + 1) as usize)
    } else {
        BvhSplit::Halves(((start + end) / 2) as usize)
    }
}

/// Decides how the BVH node over the objects `start..end` is split.
pub fn split_range(start: usize, end: usize) -> (s: BvhSplit)
    requires
        start < end,
        end - start > 2 ==> start + end <= usize::MAX,
    ensures
        s == split_spec(start as int, end as int),
        end - start == 1 ==> (s matches BvhSplit::Single(a) && a == start),
        end - start == 2 ==> (s matches BvhSplit::Pair(a, b) && a == start && b == start + 1),
        end - start > 2 ==> (s matches BvhSplit::Halves(mid) && mid == (start + end) / 2),
        s matches BvhSplit::Halves(mid) ==> start < mid < end && mid - start >= 1 && end - mid >= 2,
        s matches BvhSplit::Halves(mid) ==> mid - start <= end - mid <= mid - start + 1,
{
    let object_span = end - start;
    if object_span == 1 {
        BvhSplit::Single(start)
    } else if object_span == 2 {
        BvhSplit::Pair(start, start + 1)
    } else {
        BvhSplit::Halves((start + end) / 2)
    }
}

/// The object positions that end up in the leaves of a BVH built over
/// `start..end`, splitting each node by `split_spec`.
pub open spec fn leaf_positions(start: int, end: int) -> Set<int>
    decreases end - start,
{
    if end - start <= 0 {
        Set::empty()
    } else {
        match split_spec(start, end) {
            BvhSplit::Single(a) => set![a as int],
            BvhSplit::Pair(a, b) => set![a as int, b as int],
            BvhSplit::Halves(_) => {
                let mid = (start + end) / 2;
                leaf_positions(start, mid).union(leaf_positions(mid, end))
            },
        }
    }
}

/// A BVH built over `start..end` reaches every object of the range and
/// nothing outside it.
pub proof fn lemma_leaves_cover_range(start: int, end: int)
    requires
        0 <= start < end <= usize::MAX,
    ensures
        leaf_positions(start, end) == Set::new(|k: int| start <= k < end),
    decreases end - start,
{
    if end - start == 1 {
        assert(leaf_positions(start, end) =~= Set::new(|k: int| start <= k < end));
    } else if end - start == 2 {
        assert(leaf_positions(start, end) =~= Set::new(|k: int| start <= k < end));
    } else {
        let mid = (start + end) / 2;
        lemma_leaves_cover_range(start, mid);
        lemma_leaves_cover_range(mid, end);
        assert(leaf_positions(start, end) =~= Set::new(|k: int| start <= k < end));
    }
}

} // verus!
