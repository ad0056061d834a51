//! The extent aggregate: the union bounding box of every non-null geometry seen,
//! accumulated per partition and merged across partitions.
use vstd::prelude::*;

use crate::bbox::BoundingBox;

verus! {

/// The union of two partial extents, `None` standing for "nothing seen yet".
pub open spec fn union_opt(a: Option<BoundingBox>, b: Option<BoundingBox>) -> Option<
    BoundingBox,
> {
    match (a, b) {
        (None, _) => b,
        (Some(_), None) => a,
        (Some(p), Some(q)) => Some(p.spec_union(&q)),
    }
}

/// The extent of a sequence of geometry bounds, `None` marking a null geometry
/// or one without bounds.
pub open spec fn extent_of(s: Seq<Option<BoundingBox>>) -> Option<BoundingBox>
    decreases s.len(),
{
    if s.len() == 0 {
        None
    } else {
        union_opt(extent_of(s.drop_last()), s.last())
    }
}

/// The partial state of one partition of the aggregate.
#[derive(Clone, Copy, Debug, PartialEq, Eq, Structural)]
pub struct ExtentAccumulator {
    /// The union of the bounds seen so far; `None` while nothing has been seen.
    pub bounds: Option<BoundingBox>,
}

impl ExtentAccumulator {
    /// An accumulator that has seen nothing.
    pub fn new() -> (r: ExtentAccumulator)
        ensures
            r.bounds is None,
    {
        ExtentAccumulator { bounds: None }
    }

    /// Takes one geometry's bounds into the extent; `None` (a null geometry or
    /// one without bounds) is skipped.
    pub fn update(&mut self, value: Option<BoundingBox>)
        ensures
            final(self).bounds == union_opt(old(self).bounds, value),
    {
        match (self.bounds, value) {
            (Some(p), Some(q)) => {
                self.bounds = Some(p.union(&q));
            },
            (None, Some(q)) => {
                self.bounds = Some(q);
            },
            (_, None) => {},
        }
    }

    /// Takes every value of a batch into the extent, in order.
    pub fn update_batch(&mut self, values: &Vec<Option<BoundingBox>>)
        ensures
            final(self).bounds == union_opt(old(self).bounds, extent_of(values@)),
    {
        let mut i: usize = 0;
        while i < values.len()
            invariant
                i <= values.len(),
                self.bounds == union_opt(old(self).bounds, extent_of(values@.subrange(0, i as int))),
            decreases values.len() - i,
        {
            let ghost before = self.bounds;
            self.update(values[i]);
            proof {
                let s = values@.subrange(0, i as int + 1);
                assert(s.drop_last() =~= values@.subrange(0, i as int));
                lemma_union_opt_assoc(
                    old(self).bounds,
                    extent_of(values@.subrange(0, i as int)),
                    values@[i as int],
                );
            }
            i = i + 1;
        }
        assert(values@.subrange(0, values@.len() as int) =~= values@);
    }

    /// Merges the partial state of another partition into this one.
    pub fn merge(&mut self, other: &ExtentAccumulator)
        ensures
            final(self).bounds == union_opt(old(self).bounds, other.bounds),
    {
        self.update(other.bounds);
    }

    /// The partial state handed to another partition for merging.
    pub fn state(&self) -> (r: Option<BoundingBox>)
        ensures
            r == self.bounds,
    {
        self.bounds
    }

    /// The final result: the extent box, or `None` (a null result) when no
    /// geometry with bounds was seen.
    pub fn finalize(&self) -> (r: Option<BoundingBox>)
        ensures
            r == self.bounds,
    {
        self.bounds
    }
}

/// Merging is associative.
pub proof fn lemma_union_opt_assoc(
    a: Option<BoundingBox>,
    b: Option<BoundingBox>,
    c: Option<BoundingBox>,
)
    ensures
        union_opt(union_opt(a, b), c) == union_opt(a, union_opt(b, c)),
{
}

/// Merging is commutative.
pub proof fn lemma_union_opt_comm(a: Option<BoundingBox>, b: Option<BoundingBox>)
    ensures
        union_opt(a, b) == union_opt(b, a),
{
}

/// The empty state is an identity of merging, and finalizes to a null result.
pub proof fn lemma_empty_identity(x: Option<BoundingBox>)
    ensures
        union_opt(None, x) == x,
        union_opt(x, None) == x,
        extent_of(Seq::<Option<BoundingBox>>::empty()) is None,
{
}

/// The extent of two sequences one after the other is the merge of their extents.
pub proof fn lemma_extent_concat(a: Seq<Option<BoundingBox>>, b: Seq<Option<BoundingBox>>)
    ensures
        extent_of(a + b) == union_opt(extent_of(a), extent_of(b)),
    decreases b.len(),
{
    if b.len() == 0 {
        assert(a + b =~= a);
    } else {
        assert((a + b).drop_last() =~= a + b.drop_last());
        assert((a + b).last() == b.last());
        lemma_extent_concat(a, b.drop_last());
        lemma_union_opt_assoc(extent_of(a), extent_of(b.drop_last()), b.last());
    }
}

/// The extent covers every point of every geometry's bounds.
pub proof fn lemma_extent_covers(s: Seq<Option<BoundingBox>>, i: int, x: int, y: int)
    requires
        0 <= i < s.len(),
        s[i] matches Some(b) && b.contains_point(x, y),
    ensures
        extent_of(s) matches Some(e) && e.contains_point(x, y),
    decreases s.len(),
{
    let init = s.drop_last();
    if i < s.len() - 1 {
        assert(init[i] == s[i]);
        lemma_extent_covers(init, i, x, y);
        if let (Some(e), Some(b)) = (extent_of(init), s.last()) {
            crate::bbox::lemma_union_covers(e, b, x, y);
        }
    } else if let (Some(e), Some(b)) = (extent_of(init), s.last()) {
        crate::bbox::lemma_union_covers(e, b, x, y);
    }
}

/// The extent does not depend on the order of the values.
pub proof fn lemma_extent_permutation(a: Seq<Option<BoundingBox>>, b: Seq<Option<BoundingBox>>)
    requires
        a.to_multiset() == b.to_multiset(),
    ensures
        extent_of(a) == extent_of(b),
    decreases a.len(),
{
    broadcast use vstd::seq_lib::group_to_multiset_ensures;

    if a.len() == 0 {
        assert(a.to_multiset().len() == a.len());
        assert(b.to_multiset().len() == b.len());
    } else {
        let x = a.last();
        assert(a.contains(x)) by {
            assert(a[a.len() - 1] == x);
        }
        assert(a.to_multiset().count(x) > 0);
        assert(b.to_multiset().count(x) > 0);
        assert(b.contains(x));
        let i = choose|i: int| 0 <= i < b.len() && b[i] == x;
        let l = b.subrange(0, i);
        let r = b.subrange(i + 1, b.len() as int);
        assert(a.drop_last() =~= a.remove(a.len() - 1));
        assert(b.remove(i) =~= l + r);
        lemma_extent_permutation(a.drop_last(), l + r);
        assert(b =~= (l + seq![x]) + r);
        assert(seq![x].drop_last() =~= Seq::<Option<BoundingBox>>::empty());
        assert(seq![x].last() == x);
        assert(extent_of(Seq::<Option<BoundingBox>>::empty()) is None);
        assert(extent_of(seq![x]) == x);
        lemma_extent_concat(l + seq![x], r);
        lemma_extent_concat(l, seq![x]);
        lemma_extent_concat(l, r);
        lemma_union_opt_assoc(extent_of(l), x, extent_of(r));
        lemma_union_opt_comm(x, extent_of(r));
        lemma_union_opt_assoc(extent_of(l), extent_of(r), x);
        assert(extent_of(b) == union_opt(union_opt(extent_of(l), x), extent_of(r)));
        assert(extent_of(a) == union_opt(extent_of(l + r), x));
    }
}

/// Merging the partial extents of consecutive groups, in order, gives the
/// extent of all their values.
pub proof fn lemma_extent_groups(groups: Seq<Seq<Option<BoundingBox>>>)
    ensures
        extent_of(groups.map_values(|g: Seq<Option<BoundingBox>>| extent_of(g))) == extent_of(
            groups.flatten(),
        ),
    decreases groups.len(),
{
    let parts = groups.map_values(|g: Seq<Option<BoundingBox>>| extent_of(g));
    if groups.len() == 0 {
        assert(parts.len() == 0);
    } else {
        let init = groups.drop_last();
        let last = groups.last();
        assert(groups =~= init.push(last));
        init.lemma_flatten_push(last);
        lemma_extent_groups(init);
        assert(parts.drop_last() =~= init.map_values(|g: Seq<Option<BoundingBox>>| extent_of(g)));
        lemma_extent_concat(init.flatten(), last);
    }
}

/// The partition law over accumulators: let each accumulator hold the
/// extent of one group (as `update_batch` from `new` leaves it); merging them
/// one after the other, in any order, gives the extent of all the values.
pub proof fn lemma_merged_accumulators(
    parts: Seq<ExtentAccumulator>,
    groups: Seq<Seq<Option<BoundingBox>>>,
    all: Seq<Option<BoundingBox>>,
)
    requires
        parts.len() == groups.len(),
        forall|i: int| 0 <= i < parts.len() ==> #[trigger] parts[i].bounds == extent_of(groups[i]),
        groups.flatten().to_multiset() == all.to_multiset(),
    ensures
        extent_of(parts.map_values(|p: ExtentAccumulator| p.bounds)) == extent_of(all),
{
    let states = parts.map_values(|p: ExtentAccumulator| p.bounds);
    let extents = groups.map_values(|g: Seq<Option<BoundingBox>>| extent_of(g));
    assert(states =~= extents);
    lemma_extent_partition(groups, all);
}

/// However the values are split into groups and whatever order the groups and
/// their values come in, merging the per-group extents gives the extent of
/// all the values.
pub proof fn lemma_extent_partition(
    groups: Seq<Seq<Option<BoundingBox>>>,
    all: Seq<Option<BoundingBox>>,
)
    requires
        groups.flatten().to_multiset() == all.to_multiset(),
    ensures
        extent_of(groups.map_values(|g: Seq<Option<BoundingBox>>| extent_of(g))) == extent_of(all),
{
    lemma_extent_groups(groups);
    lemma_extent_permutation(groups.flatten(), all);
}

} // verus!
