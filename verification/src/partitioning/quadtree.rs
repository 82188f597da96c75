//! A static bounding-volume tree with four children per inner node.

use crate::bounding_volume::aabb::Aabb;
use vstd::prelude::*;

verus! {

/// A node of the tree. An inner node holds the merge of the bounds of its four
/// children, so a query can skip a whole subtree on one test.
#[derive(Debug)]
enum Node {
    Empty,
    Leaf { id: u32, aabb: Aabb },
    Branch { aabb: Aabb, first: Box<Node>, second: Box<Node>, third: Box<Node>, fourth: Box<Node> },
}

/// A spatial index over boxes, each stored under an integer id. It is built in
/// one go from all its entries and keeps them in the order given.
///
/// Its view is the sequence of its entries.
#[derive(Debug)]
pub struct QuadTree {
    root: Node,
}

/// The ids of the entries of `leaves` whose box intersects `region`, in the
/// order of `leaves`.
pub open spec fn spec_intersecting(leaves: Seq<(u32, Aabb)>, region: Aabb) -> Seq<u32>
    decreases leaves.len(),
{
    if leaves.len() == 0 {
        Seq::empty()
    } else {
        let before = spec_intersecting(leaves.drop_last(), region);
        if leaves.last().1.spec_intersects(region) {
            before.push(leaves.last().0)
        } else {
            before
        }
    }
}

/// The hits of a concatenation are the hits of its first part followed by
/// those of its second.
pub proof fn lemma_intersecting_concat(a: Seq<(u32, Aabb)>, b: Seq<(u32, Aabb)>, region: Aabb)
    ensures
        spec_intersecting(a + b, region) == spec_intersecting(a, region) + spec_intersecting(
            b,
            region,
        ),
    decreases b.len(),
{
    if b.len() == 0 {
        assert(a + b =~= a);
    } else {
        assert((a + b).drop_last() =~= a + b.drop_last());
        assert((a + b).last() == b.last());
        lemma_intersecting_concat(a, b.drop_last(), region);
    }
}

/// Where every box intersects the region, every id is a hit.
pub proof fn lemma_intersecting_all(leaves: Seq<(u32, Aabb)>, region: Aabb)
    requires
        forall|i: int| 0 <= i < leaves.len() ==> (#[trigger] leaves[i]).1.spec_intersects(region),
    ensures
        spec_intersecting(leaves, region) == Seq::new(leaves.len(), |i: int| leaves[i].0),
    decreases leaves.len(),
{
    if leaves.len() > 0 {
        let front = leaves.drop_last();
        assert forall|i: int| 0 <= i < front.len() implies (#[trigger] front[i]).1
            .spec_intersects(region) by {
            assert(front[i] == leaves[i]);
        }
        lemma_intersecting_all(front, region);
        assert(leaves.last().1.spec_intersects(region));
    }
}

/// Where no box intersects the region, there is no hit.
pub proof fn lemma_intersecting_none(leaves: Seq<(u32, Aabb)>, region: Aabb)
    requires
        forall|i: int| 0 <= i < leaves.len() ==> !(#[trigger] leaves[i]).1.spec_intersects(region),
    ensures
        spec_intersecting(leaves, region) == Seq::<u32>::empty(),
    decreases leaves.len(),
{
    if leaves.len() > 0 {
        let front = leaves.drop_last();
        assert forall|i: int| 0 <= i < front.len() implies !(#[trigger] front[i]).1
            .spec_intersects(region) by {
            assert(front[i] == leaves[i]);
        }
        lemma_intersecting_none(front, region);
        assert(!leaves.last().1.spec_intersects(region));
    }
}

/// An id is a hit exactly when some entry holds it with a box that intersects
/// the region.
pub proof fn lemma_intersecting_contains(leaves: Seq<(u32, Aabb)>, region: Aabb, id: u32)
    ensures
        spec_intersecting(leaves, region).contains(id) <==> exists|i: int|
            0 <= i < leaves.len() && (#[trigger] leaves[i]).0 == id && leaves[i].1.spec_intersects(
                region,
            ),
    decreases leaves.len(),
{
    if leaves.len() > 0 {
        let front = leaves.drop_last();
        let last = leaves.last();
        let before = spec_intersecting(front, region);
        let hits = spec_intersecting(leaves, region);
        lemma_intersecting_contains(front, region, id);
        if hits.contains(id) {
            // The hit is the last entry, or it was a hit before.
            let k = choose|k: int| 0 <= k < hits.len() && hits[k] == id;
            if last.1.spec_intersects(region) && k == before.len() {
                assert(leaves[leaves.len() - 1].0 == id);
            } else {
                assert(before[k] == id);
                let i = choose|i: int|
                    0 <= i < front.len() && (#[trigger] front[i]).0 == id
                        && front[i].1.spec_intersects(region);
                assert(leaves[i] == front[i]);
            }
        }
        if exists|i: int|
            0 <= i < leaves.len() && (#[trigger] leaves[i]).0 == id && leaves[i].1.spec_intersects(
                region,
            ) {
            // The entry is the last one, or it lies in the front.
            let i = choose|i: int|
                0 <= i < leaves.len() && (#[trigger] leaves[i]).0 == id
                    && leaves[i].1.spec_intersects(region);
            if i < front.len() {
                assert(front[i] == leaves[i]);
                let k = choose|k: int| 0 <= k < before.len() && before[k] == id;
                assert(hits[k] == id);
            } else {
                assert(hits[hits.len() - 1] == id);
            }
        }
    }
}

impl Node {
    /// The entries below this node, from left to right.
    spec fn leaves(self) -> Seq<(u32, Aabb)>
        decreases self,
    {
        match self {
            Node::Empty => Seq::empty(),
            Node::Leaf { id, aabb } => seq![(id, aabb)],
            Node::Branch { aabb, first, second, third, fourth } => first.leaves() + second.leaves()
                + third.leaves() + fourth.leaves(),
        }
    }

    spec fn spec_bound(self) -> Aabb {
        match self {
            Node::Empty => Aabb::spec_new_invalid(),
            Node::Leaf { id, aabb } => aabb,
            Node::Branch { aabb, .. } => aabb,
        }
    }

    /// Every inner node holds the merge of the bounds of its children.
    spec fn wf(self) -> bool
        decreases self,
    {
        match self {
            Node::Empty => true,
            Node::Leaf { .. } => true,
            Node::Branch { aabb, first, second, third, fourth } => {
                &&& first.wf()
                &&& second.wf()
                &&& third.wf()
                &&& fourth.wf()
                &&& aabb == first.spec_bound().spec_merged(second.spec_bound()).spec_merged(
                    third.spec_bound(),
                ).spec_merged(fourth.spec_bound())
            },
        }
    }

    /// The bound of a node contains the box of every entry below it.
    proof fn lemma_bound_contains_leaves(self, i: int)
        requires
            self.wf(),
            0 <= i < self.leaves().len(),
        ensures
            self.spec_bound().spec_contains(self.leaves()[i].1),
        decreases self,
    {
        match self {
            Node::Empty => {},
            Node::Leaf { .. } => {},
            Node::Branch { aabb, first, second, third, fourth } => {
                let n1 = first.leaves().len() as int;
                let n2 = n1 + second.leaves().len();
                let n3 = n2 + third.leaves().len();
                if i < n1 {
                    first.lemma_bound_contains_leaves(i);
                } else if i < n2 {
                    second.lemma_bound_contains_leaves(i - n1);
                } else if i < n3 {
                    third.lemma_bound_contains_leaves(i - n2);
                } else {
                    fourth.lemma_bound_contains_leaves(i - n3);
                }
            },
        }
    }

    /// A region that misses the bound of a node misses every entry below it.
    proof fn lemma_miss_has_no_hits(self, region: Aabb)
        requires
            self.wf(),
            !self.spec_bound().spec_intersects(region),
        ensures
            spec_intersecting(self.leaves(), region) == Seq::<u32>::empty(),
    {
        let leaves = self.leaves();
        assert forall|i: int| 0 <= i < leaves.len() implies !(#[trigger] leaves[i]).1
            .spec_intersects(region) by {
            self.lemma_bound_contains_leaves(i);
        }
        lemma_intersecting_none(leaves, region);
    }

    fn bound(&self) -> (bb: Aabb)
        ensures
            bb == self.spec_bound(),
    {
        match self {
            Node::Empty => Aabb::new_invalid(),
            Node::Leaf { id, aabb } => *aabb,
            Node::Branch { aabb, .. } => *aabb,
        }
    }

    /// Builds the subtree over `leaves[lo..hi]`: the range is cut into four
    /// parts of nearly equal length, one for each child.
    fn build(leaves: &Vec<(u32, Aabb)>, lo: usize, hi: usize) -> (node: Node)
        requires
            lo <= hi <= leaves.len(),
        ensures
            node.wf(),
            node.leaves() == leaves@.subrange(lo as int, hi as int),
        decreases hi - lo,
    {
        let n: usize = hi - lo;
        if n == 0 {
            Node::Empty
        } else if n == 1 {
            let entry = leaves[lo];
            Node::Leaf { id: entry.0, aabb: entry.1 }
        } else {
            let half: usize = n / 2;
            let mid: usize = lo + half;
            let cut1: usize = lo + half / 2;
            let cut3: usize = mid + (hi - mid) / 2;
            let first = Node::build(leaves, lo, cut1);
            let second = Node::build(leaves, cut1, mid);
            let third = Node::build(leaves, mid, cut3);
            let fourth = Node::build(leaves, cut3, hi);
            let mut aabb = first.bound();
            aabb.merge(&second.bound());
            aabb.merge(&third.bound());
            aabb.merge(&fourth.bound());
            Node::Branch {
                aabb,
                first: Box::new(first),
                second: Box::new(second),
                third: Box::new(third),
                fourth: Box::new(fourth),
            }
        }
    }

    /// Appends to `out` the ids of the entries below this node whose box
    /// intersects `region`.
    fn collect(&self, region: &Aabb, out: &mut Vec<u32>)
        requires
            self.wf(),
        ensures
            final(out)@ == old(out)@ + spec_intersecting(self.leaves(), *region),
        decreases self,
    {
        match self {
            Node::Empty => {},
            Node::Leaf { id, aabb } => {
                proof {
                    reveal_with_fuel(spec_intersecting, 2);
                }
                if aabb.intersects(region) {
                    out.push(*id);
                }
            },
            Node::Branch { aabb, first, second, third, fourth } => {
                if aabb.intersects(region) {
                    first.collect(region, out);
                    second.collect(region, out);
                    third.collect(region, out);
                    fourth.collect(region, out);
                    proof {
                        let l1 = first.leaves();
                        let l2 = second.leaves();
                        let l3 = third.leaves();
                        let l4 = fourth.leaves();
                        lemma_intersecting_concat(l1, l2, *region);
                        lemma_intersecting_concat(l1 + l2, l3, *region);
                        lemma_intersecting_concat(l1 + l2 + l3, l4, *region);
                    }
                } else {
                    proof {
                        self.lemma_miss_has_no_hits(*region);
                    }
                }
            },
        }
    }
}

impl View for QuadTree {
    type V = Seq<(u32, Aabb)>;

    closed spec fn view(&self) -> Seq<(u32, Aabb)> {
        self.root.leaves()
    }
}

impl QuadTree {
    #[verifier::type_invariant]
    spec fn wf(self) -> bool {
        self.root.wf()
    }

    /// The index with no entry.
    pub fn new() -> (tree: QuadTree)
        ensures
            tree@ == Seq::<(u32, Aabb)>::empty(),
    {
        QuadTree { root: Node::Empty }
    }

    /// Drops every entry and builds the index anew over `leaves`. The boxes
    /// are stored as given, without any margin.
    pub fn clear_and_rebuild(&mut self, leaves: Vec<(u32, Aabb)>)
        ensures
            final(self)@ == leaves@,
    {
        self.root = Node::build(&leaves, 0, leaves.len());
    }

    /// Appends to `out` the id of every entry whose box intersects `aabb`,
    /// in the order of the entries. Boxes that only touch `aabb` count.
    pub fn intersect_aabb(&self, aabb: &Aabb, out: &mut Vec<u32>)
        ensures
            final(out)@ == old(out)@ + spec_intersecting(self@, *aabb),
    {
        proof {
            use_type_invariant(self);
        }
        self.root.collect(aabb, out);
    }
}

} // verus!
