//! The compound shape: a union of placed primitives.

use crate::bounding_volume::aabb::{lemma_merge_all_contains, merge_all, Aabb};
use crate::bounding_volume::details::{lemma_bound_of_points_valid, spec_place_all};
use crate::math::Isometry;
use crate::partitioning::quadtree::{lemma_intersecting_all, spec_intersecting, QuadTree};
use crate::shape::shape::Shape;
use std::sync::Arc;
use vstd::prelude::*;

verus! {

/// The greatest number of parts a compound can have: each part is known to the
/// spatial index by its position, held in 32 bits.
pub const MAX_PARTS: u64 = 0x1_0000_0000;

/// Why a list of parts makes no compound.
#[derive(Clone, Copy, Debug, PartialEq, Eq, Structural)]
pub enum CompoundError {
    /// The list of parts is empty.
    Empty,
    /// One of the parts is itself made of parts.
    NestedComposite,
}

/// A shape that is the union of several simpler shapes, its parts. This is
/// how a concave shape is made from convex ones. Each part has a placement of
/// its own, its delta, in the frame of the compound, and a shape, which it may
/// share with other parts and other compounds.
///
/// A compound keeps the bound of each part, the bound of the whole, and a
/// spatial index over the bounds of the parts. It never changes once built.
#[derive(Debug)]
pub struct Compound {
    shapes: Vec<(Isometry, Arc<Shape>)>,
    quadtree: QuadTree,
    aabbs: Vec<Aabb>,
    aabb: Aabb,
}

/// The bound of each part under its own placement, in the order of the parts.
pub open spec fn spec_part_bounds(parts: Seq<(Isometry, Arc<Shape>)>) -> Seq<Aabb> {
    Seq::new(parts.len(), |i: int| parts[i].1.spec_compute_aabb(parts[i].0))
}

/// The entries of the spatial index of a compound with the part bounds
/// `bounds`: each bound under the position of its part.
pub open spec fn spec_index_entries(bounds: Seq<Aabb>) -> Seq<(u32, Aabb)> {
    Seq::new(bounds.len(), |i: int| (i as u32, bounds[i]))
}

/// Whether some part is itself made of parts.
pub open spec fn spec_has_composite(parts: Seq<(Isometry, Arc<Shape>)>) -> bool {
    exists|i: int| 0 <= i < parts.len() && (#[trigger] parts[i]).1.spec_is_composite()
}

/// Whether `bb` can be the bound of placed local geometry: the invalid box, or
/// a valid box in the placed range.
pub open spec fn spec_is_placed_bound(bb: Aabb) -> bool {
    bb == Aabb::spec_new_invalid() || (bb.spec_is_valid() && bb.in_placed_range())
}

/// The bound of a primitive under any placement is the invalid box or a valid
/// box in the placed range.
proof fn lemma_primitive_bound_is_placed(shape: Shape, pos: Isometry)
    requires
        !shape.spec_is_composite(),
    ensures
        spec_is_placed_bound(shape.spec_compute_aabb(pos)),
{
    match shape {
        Shape::ConvexPolygon(poly) => {
            let placed = spec_place_all(pos, poly@);
            assert forall|i: int| 0 <= i < placed.len() implies (#[trigger] placed[i])
                .in_placed_range() by {
                pos.lemma_transform_point_exact(poly@[i]);
            }
            lemma_bound_of_points_valid(placed);
        },
        Shape::Compound(_) => {},
    }
}

/// The merge of placed bounds is a placed bound.
proof fn lemma_merge_all_is_placed(boxes: Seq<Aabb>)
    requires
        forall|i: int| 0 <= i < boxes.len() ==> spec_is_placed_bound(#[trigger] boxes[i]),
    ensures
        spec_is_placed_bound(merge_all(boxes)),
    decreases boxes.len(),
{
    if boxes.len() > 0 {
        let front = boxes.drop_last();
        assert forall|i: int| 0 <= i < front.len() implies spec_is_placed_bound(
            #[trigger] front[i],
        ) by {
            assert(front[i] == boxes[i]);
        }
        lemma_merge_all_is_placed(front);
        assert(spec_is_placed_bound(boxes.last()));
    }
}

impl CompoundError {
    /// The words of [`CompoundError::message`].
    pub open spec fn spec_message(self) -> Seq<char> {
        match self {
            CompoundError::Empty => "A compound shape must contain at least one shape."@,
            CompoundError::NestedComposite => "Nested composite shapes are not allowed."@,
        }
    }

    /// What went wrong, in words.
    pub fn message(&self) -> (msg: &'static str)
        ensures
            msg@ == self.spec_message(),
    {
        match self {
            CompoundError::Empty => "A compound shape must contain at least one shape.",
            CompoundError::NestedComposite => "Nested composite shapes are not allowed.",
        }
    }
}

impl Compound {
    /// The parts of this compound: each a placement in the frame of the
    /// compound, and a shape.
    pub closed spec fn spec_shapes(self) -> Seq<(Isometry, Arc<Shape>)> {
        self.shapes@
    }

    /// The bounds kept for the parts.
    pub closed spec fn spec_aabbs(self) -> Seq<Aabb> {
        self.aabbs@
    }

    /// The bound kept for the whole compound.
    pub closed spec fn spec_aabb(self) -> Aabb {
        self.aabb
    }

    /// The spatial index kept over the bounds of the parts.
    pub closed spec fn spec_quadtree(self) -> QuadTree {
        self.quadtree
    }

    /// What holds of every compound: it has a part; no part is itself made of
    /// parts; the bound kept for a part is the bound of its shape under its
    /// placement; the bound of the whole is the merge of the bounds of the
    /// parts; and the spatial index holds one entry for each part, its bound
    /// under its position.
    #[verifier::type_invariant]
    pub open spec fn wf(self) -> bool {
        &&& 0 < self.spec_shapes().len() <= MAX_PARTS
        &&& !spec_has_composite(self.spec_shapes())
        &&& self.spec_aabbs() == spec_part_bounds(self.spec_shapes())
        &&& self.spec_aabb() == merge_all(self.spec_aabbs())
        &&& self.spec_quadtree()@ == spec_index_entries(self.spec_aabbs())
    }

    /// The bound of this compound after placement by `pos`.
    pub open spec fn spec_compute_aabb(self, pos: Isometry) -> Aabb {
        self.spec_aabb().spec_transform_by(pos)
    }

    /// The bound of a compound is the invalid box or a valid box in the placed
    /// range.
    pub proof fn lemma_aabb_is_placed(self)
        requires
            self.wf(),
        ensures
            spec_is_placed_bound(self.spec_aabb()),
    {
        let parts = self.spec_shapes();
        let bounds = spec_part_bounds(parts);
        assert forall|i: int| 0 <= i < bounds.len() implies spec_is_placed_bound(
            #[trigger] bounds[i],
        ) by {
            lemma_primitive_bound_is_placed(*parts[i].1, parts[i].0);
        }
        lemma_merge_all_is_placed(bounds);
    }

    /// The bound kept for each part is the bound of its shape under its delta,
    /// computed for that part alone; the bound of the whole is the merge of
    /// these, from the first part to the last, and covers each of them.
    pub proof fn lemma_overall_bound(self)
        requires
            self.wf(),
        ensures
            self.spec_aabbs().len() == self.spec_shapes().len(),
            forall|i: int|
                0 <= i < self.spec_shapes().len() ==> #[trigger] self.spec_aabbs()[i]
                    == self.spec_shapes()[i].1.spec_compute_aabb(self.spec_shapes()[i].0),
            self.spec_aabb() == merge_all(spec_part_bounds(self.spec_shapes())),
            forall|i: int|
                0 <= i < self.spec_shapes().len() ==> self.spec_aabb().spec_contains(
                    #[trigger] self.spec_aabbs()[i],
                ),
    {
        assert forall|i: int| 0 <= i < self.spec_shapes().len() implies self.spec_aabb()
            .spec_contains(#[trigger] self.spec_aabbs()[i]) by {
            lemma_merge_all_contains(self.spec_aabbs(), i);
        }
    }

    /// The spatial index holds one entry for each part: under the position of
    /// the part, the bound kept for it.
    pub proof fn lemma_index_entries(self)
        requires
            self.wf(),
        ensures
            self.spec_quadtree()@.len() == self.spec_shapes().len(),
            forall|i: int|
                0 <= i < self.spec_shapes().len() ==> (#[trigger] self.spec_quadtree()@[i]).0 == i
                    && self.spec_quadtree()@[i].1 == self.spec_aabbs()[i],
    {
    }

    /// A query of the spatial index with the bound of the whole compound
    /// gives the position of every part, each once and in order, provided
    /// every part has a valid bound.
    pub proof fn lemma_index_complete(self)
        requires
            self.wf(),
            forall|i: int|
                0 <= i < self.spec_aabbs().len() ==> (#[trigger] self.spec_aabbs()[i])
                    .spec_is_valid(),
        ensures
            spec_intersecting(self.spec_quadtree()@, self.spec_aabb()).len()
                == self.spec_shapes().len(),
            forall|i: int|
                0 <= i < self.spec_shapes().len() ==> #[trigger] spec_intersecting(
                    self.spec_quadtree()@,
                    self.spec_aabb(),
                )[i] == i,
    {
        let bounds = self.spec_aabbs();
        let entries = spec_index_entries(bounds);
        let whole = self.spec_aabb();
        self.lemma_overall_bound();
        assert forall|i: int| 0 <= i < entries.len() implies (#[trigger] entries[i]).1
            .spec_intersects(whole) by {
            // A valid box intersects every box that covers it.
            assert(whole.spec_contains(bounds[i]) && bounds[i].spec_is_valid());
        }
        lemma_intersecting_all(entries, whole);
    }

    /// Builds a new compound shape from parts of which there is at least one
    /// and none is itself made of parts.
    pub fn new(shapes: Vec<(Isometry, Arc<Shape>)>) -> (compound: Compound)
        requires
            0 < shapes@.len() <= MAX_PARTS,
            !spec_has_composite(shapes@),
        ensures
            compound.wf(),
            compound.spec_shapes() == shapes@,
            compound.spec_aabbs() == spec_part_bounds(shapes@),
            compound.spec_aabb() == merge_all(spec_part_bounds(shapes@)),
            compound.spec_quadtree()@ == spec_index_entries(spec_part_bounds(shapes@)),
    {
        let ghost bounds = spec_part_bounds(shapes@);
        let mut aabbs: Vec<Aabb> = Vec::new();
        let mut leaves: Vec<(u32, Aabb)> = Vec::new();
        let mut aabb = Aabb::new_invalid();
        let mut i: usize = 0;
        while i < shapes.len()
            invariant
                i <= shapes.len() <= MAX_PARTS,
                bounds == spec_part_bounds(shapes@),
                aabbs@ == bounds.take(i as int),
                leaves@ == spec_index_entries(bounds.take(i as int)),
                aabb == merge_all(bounds.take(i as int)),
            decreases shapes.len() - i,
        {
            let part = &shapes[i];
            let bv = part.1.compute_aabb(&part.0);
            proof {
                assert(bounds.take(i + 1).drop_last() =~= bounds.take(i as int));
            }
            aabb.merge(&bv);
            aabbs.push(bv);
            leaves.push((i as u32, bv));
            i += 1;
        }
        proof {
            assert(bounds.take(i as int) =~= bounds);
        }
        // The index is never refitted to moving parts, so it holds the bounds
        // as they are.
        let mut quadtree = QuadTree::new();
        quadtree.clear_and_rebuild(leaves);
        Compound { shapes, quadtree, aabbs, aabb }
    }

    /// Builds a new compound shape, or says why the parts make none: the list
    /// is empty, or one of the parts is itself made of parts.
    pub fn try_new(shapes: Vec<(Isometry, Arc<Shape>)>) -> (built: Result<Compound, CompoundError>)
        requires
            shapes@.len() <= MAX_PARTS,
        ensures
            built matches Err(CompoundError::Empty) <==> shapes@.len() == 0,
            built matches Err(CompoundError::NestedComposite) <==> shapes@.len() > 0
                && spec_has_composite(shapes@),
            built is Ok <==> shapes@.len() > 0 && !spec_has_composite(shapes@),
            built matches Ok(compound) ==> {
                &&& compound.wf()
                &&& compound.spec_shapes() == shapes@
                &&& compound.spec_aabbs() == spec_part_bounds(shapes@)
                &&& compound.spec_aabb() == merge_all(spec_part_bounds(shapes@))
                &&& compound.spec_quadtree()@ == spec_index_entries(spec_part_bounds(shapes@))
            },
    {
        if shapes.len() == 0 {
            return Err(CompoundError::Empty);
        }
        let mut i: usize = 0;
        while i < shapes.len()
            invariant
                i <= shapes.len(),
                forall|j: int| 0 <= j < i ==> !(#[trigger] shapes@[j]).1.spec_is_composite(),
            decreases shapes.len() - i,
        {
            if shapes[i].1.as_composite_shape().is_some() {
                return Err(CompoundError::NestedComposite);
            }
            i += 1;
        }
        Ok(Compound::new(shapes))
    }

    /// The parts of this compound: each a delta and a shape.
    pub fn shapes(&self) -> (parts: &[(Isometry, Arc<Shape>)])
        ensures
            parts@ == self.spec_shapes(),
            self.wf(),
    {
        proof {
            use_type_invariant(self);
        }
        self.shapes.as_slice()
    }

    /// The bound of this compound in its own frame.
    pub fn aabb(&self) -> (bb: &Aabb)
        ensures
            *bb == self.spec_aabb(),
            *bb == merge_all(spec_part_bounds(self.spec_shapes())),
            self.wf(),
    {
        proof {
            use_type_invariant(self);
        }
        &self.aabb
    }

    /// The bound of each part in the frame of this compound, in the order of
    /// the parts.
    pub fn aabbs(&self) -> (bounds: &[Aabb])
        ensures
            bounds@ == self.spec_aabbs(),
            bounds@ == spec_part_bounds(self.spec_shapes()),
            self.wf(),
    {
        proof {
            use_type_invariant(self);
        }
        self.aabbs.as_slice()
    }

    /// The bound of this compound after placement by `pos`: the image of its
    /// local bound.
    pub fn compute_aabb(&self, pos: &Isometry) -> (bb: Aabb)
        ensures
            bb == self.spec_compute_aabb(*pos),
    {
        proof {
            use_type_invariant(self);
            self.lemma_aabb_is_placed();
            if self.aabb.spec_is_valid() {
                self.aabb.lemma_placed_range_fits(*pos);
            }
        }
        self.aabb.transform_by(pos)
    }

    /// The number of parts.
    pub fn nparts(&self) -> (n: usize)
        ensures
            n == self.spec_shapes().len(),
            n > 0,
            self.wf(),
    {
        proof {
            use_type_invariant(self);
        }
        self.shapes.len()
    }

    /// Hands the part at position `shape_id` to `f`, with its placement, and
    /// gives back what `f` made of it. Where there is no such part `f` is not
    /// called, and the result is `None`.
    pub fn map_part_at<R, F: FnOnce(Option<&Isometry>, &Shape) -> R>(
        &self,
        shape_id: u32,
        f: F,
    ) -> (mapped: Option<R>)
        requires
            shape_id < self.spec_shapes().len() ==> f.requires(
                (
                    Some(&self.spec_shapes()[shape_id as int].0),
                    &*self.spec_shapes()[shape_id as int].1,
                ),
            ),
        ensures
            shape_id >= self.spec_shapes().len() ==> mapped is None,
            shape_id < self.spec_shapes().len() ==> mapped is Some && f.ensures(
                (
                    Some(&self.spec_shapes()[shape_id as int].0),
                    &*self.spec_shapes()[shape_id as int].1,
                ),
                mapped->Some_0,
            ),
    {
        let idx = shape_id as usize;
        if idx < self.shapes.len() {
            let part = &self.shapes[idx];
            Some(f(Some(&part.0), &*part.1))
        } else {
            None
        }
    }

    /// The spatial index over the bounds of the parts.
    pub fn quadtree(&self) -> (tree: &QuadTree)
        ensures
            *tree == self.spec_quadtree(),
            tree@ == spec_index_entries(spec_part_bounds(self.spec_shapes())),
            self.wf(),
    {
        proof {
            use_type_invariant(self);
        }
        &self.quadtree
    }
}

} // verus!
