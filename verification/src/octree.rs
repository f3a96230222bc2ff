//! Octree spatial index.
//!
//! Space is partitioned into nested axis-aligned cubes; each node keeps the
//! bodies whose positions fall inside its cube and, once it holds more than
//! a fixed number of them and may still subdivide, eight child octants.
//! A body that fits no single child stays at the parent. The index answers
//! conservative sphere queries: it returns every stored body whose node
//! cube meets the sphere, and is proved never to miss a stored body that
//! truly lies within the query radius.
//!
//! The model of a subtree is the multiset of `(entity, position)` pairs it
//! stores; every operation's contract is stated over that multiset.

use vstd::prelude::*;
use vstd::multiset::Multiset;

use crate::ids::EntityId;
use crate::math::{Vec3, COORD_LIMIT, spec_in_bounds, spec_dist_sq, spec_half, half_i64};

verus! {

/// How many bodies a node may hold before it tries to subdivide.
pub const MAX_OBJECTS_PER_NODE: usize = 4;

/// Whether `p` lies in the closed cube around `center` with the given half
/// width.
pub open spec fn spec_in_cube(center: Vec3, half: int, p: Vec3) -> bool {
    &&& center.x - half <= p.x <= center.x + half
    &&& center.y - half <= p.y <= center.y + half
    &&& center.z - half <= p.z <= center.z + half
}

/// Whether the cube has positive size and sits far enough from the
/// coordinate limits that its corner coordinates can be computed exactly.
pub open spec fn spec_cube_bounded(center: Vec3, half: int) -> bool {
    &&& 0 < half
    &&& -COORD_LIMIT <= center.x - half
    &&& center.x + half <= COORD_LIMIT
    &&& -COORD_LIMIT <= center.y - half
    &&& center.y + half <= COORD_LIMIT
    &&& -COORD_LIMIT <= center.z - half
    &&& center.z + half <= COORD_LIMIT
}

/// Whether the first cube lies entirely inside the second.
pub open spec fn spec_cube_inside(
    inner_center: Vec3,
    inner_half: int,
    outer_center: Vec3,
    outer_half: int,
) -> bool {
    &&& outer_center.x - outer_half <= inner_center.x - inner_half
    &&& inner_center.x + inner_half <= outer_center.x + outer_half
    &&& outer_center.y - outer_half <= inner_center.y - inner_half
    &&& inner_center.y + inner_half <= outer_center.y + outer_half
    &&& outer_center.z - outer_half <= inner_center.z - inner_half
    &&& inner_center.z + inner_half <= outer_center.z + outer_half
}

/// Clamp `v` into the closed interval `[lo, hi]`.
pub open spec fn spec_clamp(v: int, lo: int, hi: int) -> int {
    if v < lo {
        lo
    } else if v > hi {
        hi
    } else {
        v
    }
}

/// The point of the cube nearest to `p`: each coordinate of `p` clamped to
/// the cube's extent on that axis.
pub open spec fn spec_closest_in_cube(center: Vec3, half: int, p: Vec3) -> Vec3 {
    Vec3 {
        x: spec_clamp(p.x as int, center.x - half, center.x + half) as i64,
        y: spec_clamp(p.y as int, center.y - half, center.y + half) as i64,
        z: spec_clamp(p.z as int, center.z - half, center.z + half) as i64,
    }
}

/// Whether the sphere around `c` with radius `r` meets the cube: the
/// nearest cube point is within `r` of `c`.
pub open spec fn spec_sphere_meets_cube(center: Vec3, half: int, c: Vec3, r: int) -> bool {
    spec_dist_sq(spec_closest_in_cube(center, half, c), c) <= r * r
}

/// A node of the octree: an axis-aligned cube, the bodies stored at this
/// node, and optionally eight child octants.
#[derive(Debug)]
pub struct OctreeNode {
    /// Center of this node's cube (millimetres).
    pub center: Vec3,
    /// Half the cube's edge length (millimetres).
    pub half_size: i64,
    /// Depth beyond which no node subdivides.
    pub max_depth: u32,
    /// Depth of this node; the root has depth 0.
    pub depth: u32,
    /// Bodies stored at this node, each with the position it was indexed
    /// under.
    pub objects: Vec<(EntityId, Vec3)>,
    /// The eight child octants, present only after subdivision.
    pub children: Option<Box<Octants>>,
}

/// The eight children of a subdivided node, one per octant sign pattern:
/// `c0..c3` form the lower-z layer in the x/y order `(-,-) (+,-) (-,+)
/// (+,+)`, and `c4..c7` the upper-z layer in the same order.
#[derive(Debug)]
pub struct Octants {
    pub c0: OctreeNode,
    pub c1: OctreeNode,
    pub c2: OctreeNode,
    pub c3: OctreeNode,
    pub c4: OctreeNode,
    pub c5: OctreeNode,
    pub c6: OctreeNode,
    pub c7: OctreeNode,
}

impl OctreeNode {
    /// Everything stored in this subtree: the multiset of
    /// `(entity, position)` pairs of this node and all its descendants.
    pub open spec fn contents(self) -> Multiset<(EntityId, Vec3)>
        decreases self,
    {
        self.objects@.to_multiset().add(
            match self.children {
                None => Multiset::empty(),
                Some(b) => b.contents(),
            },
        )
    }

    /// Structural soundness of a subtree: the cube is well sized, every
    /// body stored here lies inside the cube, and children (if any) are
    /// well-formed octants one level deeper whose cubes sit inside this
    /// one.
    pub open spec fn wf(self) -> bool
        decreases self,
    {
        &&& spec_cube_bounded(self.center, self.half_size as int)
        &&& self.depth <= self.max_depth
        &&& (forall|i: int|
            0 <= i < self.objects@.len() ==> spec_in_cube(
                self.center,
                self.half_size as int,
                (#[trigger] self.objects@[i]).1,
            ))
        &&& match self.children {
            None => true,
            Some(b) => self.depth < self.max_depth && b.wf_under(
                self.center,
                self.half_size as int,
                self.depth,
                self.max_depth,
            ),
        }
    }

    /// Whether this node sits rightly under a parent with the given frame:
    /// one level deeper, same depth limit, cube inside the parent's.
    pub open spec fn frame_under(
        self,
        center: Vec3,
        half: int,
        depth: u32,
        max_depth: u32,
    ) -> bool {
        &&& self.depth == depth + 1
        &&& self.max_depth == max_depth
        &&& spec_cube_inside(self.center, self.half_size as int, center, half)
    }
}

impl Octants {
    /// Everything stored in the eight octants.
    pub open spec fn contents(self) -> Multiset<(EntityId, Vec3)>
        decreases self,
    {
        self.c0.contents().add(self.c1.contents()).add(self.c2.contents()).add(
            self.c3.contents(),
        ).add(self.c4.contents()).add(self.c5.contents()).add(self.c6.contents()).add(
            self.c7.contents(),
        )
    }

    /// The octants carve the parent cube around `center` with half width
    /// `half` into its eight equal sign-pattern cubes: each child cube is
    /// half as wide (rounded down) and offset by that quarter width along
    /// each axis, in the fixed `c0..c7` order.
    pub open spec fn octant_layout(self, center: Vec3, half: int) -> bool {
        let q = spec_half(half);
        &&& self.c0.center == (Vec3 {
            x: (center.x - q) as i64,
            y: (center.y - q) as i64,
            z: (center.z - q) as i64,
        }) && self.c0.half_size == q
        &&& self.c1.center == (Vec3 {
            x: (center.x + q) as i64,
            y: (center.y - q) as i64,
            z: (center.z - q) as i64,
        }) && self.c1.half_size == q
        &&& self.c2.center == (Vec3 {
            x: (center.x - q) as i64,
            y: (center.y + q) as i64,
            z: (center.z - q) as i64,
        }) && self.c2.half_size == q
        &&& self.c3.center == (Vec3 {
            x: (center.x + q) as i64,
            y: (center.y + q) as i64,
            z: (center.z - q) as i64,
        }) && self.c3.half_size == q
        &&& self.c4.center == (Vec3 {
            x: (center.x - q) as i64,
            y: (center.y - q) as i64,
            z: (center.z + q) as i64,
        }) && self.c4.half_size == q
        &&& self.c5.center == (Vec3 {
            x: (center.x + q) as i64,
            y: (center.y - q) as i64,
            z: (center.z + q) as i64,
        }) && self.c5.half_size == q
        &&& self.c6.center == (Vec3 {
            x: (center.x - q) as i64,
            y: (center.y + q) as i64,
            z: (center.z + q) as i64,
        }) && self.c6.half_size == q
        &&& self.c7.center == (Vec3 {
            x: (center.x + q) as i64,
            y: (center.y + q) as i64,
            z: (center.z + q) as i64,
        }) && self.c7.half_size == q
    }

    /// The eight octants' cubes are the same in both values.
    pub open spec fn same_frames(self, other: Octants) -> bool {
        &&& self.c0.center == other.c0.center && self.c0.half_size == other.c0.half_size
        &&& self.c1.center == other.c1.center && self.c1.half_size == other.c1.half_size
        &&& self.c2.center == other.c2.center && self.c2.half_size == other.c2.half_size
        &&& self.c3.center == other.c3.center && self.c3.half_size == other.c3.half_size
        &&& self.c4.center == other.c4.center && self.c4.half_size == other.c4.half_size
        &&& self.c5.center == other.c5.center && self.c5.half_size == other.c5.half_size
        &&& self.c6.center == other.c6.center && self.c6.half_size == other.c6.half_size
        &&& self.c7.center == other.c7.center && self.c7.half_size == other.c7.half_size
    }

    /// All eight octants are well-formed children of the given frame.
    pub open spec fn wf_under(self, center: Vec3, half: int, depth: u32, max_depth: u32) -> bool
        decreases self,
    {
        &&& self.c0.wf() && self.c0.frame_under(center, half, depth, max_depth)
        &&& self.c1.wf() && self.c1.frame_under(center, half, depth, max_depth)
        &&& self.c2.wf() && self.c2.frame_under(center, half, depth, max_depth)
        &&& self.c3.wf() && self.c3.frame_under(center, half, depth, max_depth)
        &&& self.c4.wf() && self.c4.frame_under(center, half, depth, max_depth)
        &&& self.c5.wf() && self.c5.frame_under(center, half, depth, max_depth)
        &&& self.c6.wf() && self.c6.frame_under(center, half, depth, max_depth)
        &&& self.c7.wf() && self.c7.frame_under(center, half, depth, max_depth)
    }
}

/// Everything stored in a well-formed subtree lies inside the subtree's
/// cube.
pub proof fn lemma_contents_in_cube(node: OctreeNode)
    requires
        node.wf(),
    ensures
        forall|e: (EntityId, Vec3)|
            node.contents().contains(e) ==> spec_in_cube(
                node.center,
                node.half_size as int,
                e.1,
            ),
    decreases node,
{
    broadcast use vstd::seq_lib::group_to_multiset_ensures;
    broadcast use vstd::multiset::group_multiset_axioms;

    match node.children {
        None => {
            assert forall|e: (EntityId, Vec3)| node.contents().contains(e) implies spec_in_cube(
                node.center,
                node.half_size as int,
                e.1,
            ) by {
                assert(node.objects@.to_multiset().contains(e));
                assert(node.objects@.contains(e));
                let i = choose|i: int| 0 <= i < node.objects@.len() && node.objects@[i] == e;
                assert(spec_in_cube(node.center, node.half_size as int, node.objects@[i].1));
            }
        },
        Some(b) => {
            lemma_contents_in_cube(b.c0);
            lemma_contents_in_cube(b.c1);
            lemma_contents_in_cube(b.c2);
            lemma_contents_in_cube(b.c3);
            lemma_contents_in_cube(b.c4);
            lemma_contents_in_cube(b.c5);
            lemma_contents_in_cube(b.c6);
            lemma_contents_in_cube(b.c7);
            assert forall|e: (EntityId, Vec3)| node.contents().contains(e) implies spec_in_cube(
                node.center,
                node.half_size as int,
                e.1,
            ) by {
                if node.objects@.to_multiset().contains(e) {
                    assert(node.objects@.contains(e));
                    let i = choose|i: int| 0 <= i < node.objects@.len() && node.objects@[i] == e;
                    assert(spec_in_cube(node.center, node.half_size as int, node.objects@[i].1));
                } else {
                    assert(b.contents().contains(e));
                    assert(b.c0.contents().contains(e) || b.c1.contents().contains(e)
                        || b.c2.contents().contains(e) || b.c3.contents().contains(e)
                        || b.c4.contents().contains(e) || b.c5.contents().contains(e)
                        || b.c6.contents().contains(e) || b.c7.contents().contains(e));
                }
            }
        },
    }
}

impl OctreeNode {
    /// Create an empty node over the given cube.
    pub fn new(center: Vec3, half_size: i64, max_depth: u32, depth: u32) -> (node: OctreeNode)
        requires
            spec_cube_bounded(center, half_size as int),
            depth <= max_depth,
        ensures
            node.wf(),
            node.contents() == Multiset::<(EntityId, Vec3)>::empty(),
            node.center == center,
            node.half_size == half_size,
            node.max_depth == max_depth,
            node.depth == depth,
            node.objects@.len() == 0,
            node.children is None,
    {
        let node = OctreeNode {
            center,
            half_size,
            max_depth,
            depth,
            objects: Vec::new(),
            children: None,
        };
        proof {
            broadcast use vstd::seq_lib::group_to_multiset_ensures;

            assert(node.objects@.to_multiset() =~= Multiset::<(EntityId, Vec3)>::empty());
            assert(node.contents() =~= Multiset::<(EntityId, Vec3)>::empty());
        }
        node
    }

    /// Whether `point` lies within this node's cube, boundary included.
    pub fn contains_point(&self, point: &Vec3) -> (b: bool)
        requires
            spec_cube_bounded(self.center, self.half_size as int),
        ensures
            b == spec_in_cube(self.center, self.half_size as int, *point),
    {
        point.x >= self.center.x - self.half_size && point.x <= self.center.x + self.half_size
            && point.y >= self.center.y - self.half_size && point.y <= self.center.y
            + self.half_size && point.z >= self.center.z - self.half_size && point.z
            <= self.center.z + self.half_size
    }

    /// Whether the sphere around `sphere_center` with radius
    /// `sphere_radius` meets this node's cube: the cube point nearest to
    /// the center is no farther than the radius.
    pub fn sphere_intersects_cube(&self, sphere_center: &Vec3, sphere_radius: i64) -> (b: bool)
        requires
            spec_cube_bounded(self.center, self.half_size as int),
            spec_in_bounds(*sphere_center),
            0 <= sphere_radius <= COORD_LIMIT,
        ensures
            b == spec_sphere_meets_cube(
                self.center,
                self.half_size as int,
                *sphere_center,
                sphere_radius as int,
            ),
    {
        let cx: i64 = clamp_i64(sphere_center.x, self.center.x - self.half_size, self.center.x
            + self.half_size);
        let cy: i64 = clamp_i64(sphere_center.y, self.center.y - self.half_size, self.center.y
            + self.half_size);
        let cz: i64 = clamp_i64(sphere_center.z, self.center.z - self.half_size, self.center.z
            + self.half_size);
        let closest = Vec3 { x: cx, y: cy, z: cz };
        let d2: i128 = closest.dist_sq(sphere_center);
        proof {
            assert((sphere_radius as int) * (sphere_radius as int) <= 1_000_000_000_000_000_000 * (
            1_000_000_000_000_000_000_int)) by (nonlinear_arith)
                requires
                    0 <= sphere_radius <= 1_000_000_000_000_000_000,
            ;
        }
        let r2: i128 = (sphere_radius as i128) * (sphere_radius as i128);
        d2 <= r2
    }

    /// Empty this node and its whole subtree and drop the children.
    pub fn clear(&mut self)
        ensures
            final(self).contents() == Multiset::<(EntityId, Vec3)>::empty(),
            final(self).center == old(self).center,
            final(self).half_size == old(self).half_size,
            final(self).max_depth == old(self).max_depth,
            final(self).depth == old(self).depth,
            final(self).objects@.len() == 0,
            final(self).children is None,
            old(self).wf() ==> final(self).wf(),
    {
        self.objects.clear();
        self.children = None;
        proof {
            broadcast use vstd::seq_lib::group_to_multiset_ensures;

            assert(self.objects@.to_multiset() =~= Multiset::<(EntityId, Vec3)>::empty());
            assert(self.contents() =~= Multiset::<(EntityId, Vec3)>::empty());
        }
    }
}

/// Clamp `v` into `[lo, hi]`.
pub fn clamp_i64(v: i64, lo: i64, hi: i64) -> (c: i64)
    requires
        lo <= hi,
    ensures
        c == spec_clamp(v as int, lo as int, hi as int),
{
    if v < lo {
        lo
    } else if v > hi {
        hi
    } else {
        v
    }
}

/// A point inside a cube is never nearer to anywhere than the cube's
/// nearest point is: the clamped point minimizes the distance, so a sphere
/// that reaches a stored position also reaches its node's cube.
pub proof fn lemma_inside_point_beyond_closest(center: Vec3, half: int, c: Vec3, p: Vec3)
    requires
        spec_in_cube(center, half, p),
        spec_cube_bounded(center, half),
        spec_in_bounds(c),
    ensures
        spec_dist_sq(spec_closest_in_cube(center, half, c), c) <= spec_dist_sq(p, c),
{
    lemma_clamp_axis(c.x as int, center.x - half, center.x + half, p.x as int);
    lemma_clamp_axis(c.y as int, center.y - half, center.y + half, p.y as int);
    lemma_clamp_axis(c.z as int, center.z - half, center.z + half, p.z as int);
}

/// On one axis: the clamped coordinate is at least as close to `v` as any
/// coordinate inside the interval.
proof fn lemma_clamp_axis(v: int, lo: int, hi: int, p: int)
    requires
        lo <= p <= hi,
    ensures
        (spec_clamp(v, lo, hi) - v) * (spec_clamp(v, lo, hi) - v) <= (p - v) * (p - v),
{
    let q = spec_clamp(v, lo, hi);
    if v < lo {
        assert((q - v) * (q - v) <= (p - v) * (p - v)) by (nonlinear_arith)
            requires
                q == lo,
                0 <= q - v,
                q - v <= p - v,
        ;
    } else if v > hi {
        assert((q - v) * (q - v) <= (p - v) * (p - v)) by (nonlinear_arith)
            requires
                q == hi,
                q - v <= 0,
                p - v <= q - v,
        ;
    } else {
        assert((q - v) * (q - v) <= (p - v) * (p - v)) by (nonlinear_arith)
            requires
                q == v,
        ;
    }
}

impl OctreeNode {
    /// Insert a body at `position` into this subtree. Returns `false`, and
    /// stores nothing, when the position lies outside this node's cube.
    /// On success the subtree's contents grow by exactly this one pair; if
    /// the holding node was over capacity and could still subdivide, it has
    /// split into eight octants and pushed every resident into whichever
    /// single child fully contains it, residents fitting no child staying
    /// here.
    pub fn insert(&mut self, entity: EntityId, position: Vec3) -> (r: bool)
        requires
            old(self).wf(),
        ensures
            final(self).wf(),
            r == spec_in_cube(old(self).center, old(self).half_size as int, position),
            r ==> final(self).contents() == old(self).contents().insert((entity, position)),
            !r ==> final(self).contents() == old(self).contents(),
            // a leaf over capacity that may still subdivide has done so
            (r && old(self).children is None && old(self).objects@.len() >= MAX_OBJECTS_PER_NODE
                && old(self).depth < old(self).max_depth && old(self).half_size >= 2)
                ==> final(self).children is Some,
            old(self).children is Some ==> final(self).children is Some,
            // fresh children carve this node's cube into its eight octants
            (old(self).children is None && final(self).children is Some)
                ==> final(self).children.unwrap().octant_layout(
                old(self).center,
                old(self).half_size as int,
            ),
            final(self).center == old(self).center,
            final(self).half_size == old(self).half_size,
            final(self).depth == old(self).depth,
            final(self).max_depth == old(self).max_depth,
        decreases old(self).max_depth - old(self).depth, 2int,
    {
        broadcast use vstd::seq_lib::group_to_multiset_ensures;
        broadcast use vstd::multiset::group_multiset_axioms;

        if !self.contains_point(&position) {
            return false;
        }
        if self.children.is_none() && self.objects.len() >= MAX_OBJECTS_PER_NODE && self.depth
            < self.max_depth && self.half_size >= 2 {
            self.subdivide();
        }
        let ghost pre = *self;
        match self.children.take() {
            None => {
                self.objects.push((entity, position));
                proof {
                    assert(self.objects@ == pre.objects@.push((entity, position)));
                    assert(self.contents() =~= pre.contents().insert((entity, position)));
                }
            },
            Some(mut b) => {
                let ghost frame = (self.center, self.half_size as int, self.depth,
                    self.max_depth);
                let took = octants_insert(&mut *b, entity, position, Ghost(frame));
                self.children = Some(b);
                if took {
                    proof {
                        assert(self.contents() =~= pre.contents().insert((entity, position)));
                    }
                } else {
                    self.objects.push((entity, position));
                    proof {
                        assert(self.objects@ == pre.objects@.push((entity, position)));
                        assert(self.contents() =~= pre.contents().insert((entity, position)));
                    }
                }
            },
        }
        true
    }

    /// Split this node into eight equal octants and push every resident
    /// into whichever single child fully contains it; residents that fit no
    /// child stay at this node. The stored pairs are exactly preserved.
    /// (A cube thinner than two millimetres never subdivides: its children
    /// would have no extent.)
    fn subdivide(&mut self)
        requires
            old(self).wf(),
            old(self).children is None,
            old(self).depth < old(self).max_depth,
            old(self).half_size >= 2,
        ensures
            final(self).wf(),
            final(self).contents() == old(self).contents(),
            final(self).children is Some,
            final(self).children.unwrap().octant_layout(
                old(self).center,
                old(self).half_size as int,
            ),
            final(self).center == old(self).center,
            final(self).half_size == old(self).half_size,
            final(self).depth == old(self).depth,
            final(self).max_depth == old(self).max_depth,
        decreases old(self).max_depth - old(self).depth, 1int,
    {
        broadcast use vstd::seq_lib::group_to_multiset_ensures;
        broadcast use vstd::multiset::group_multiset_axioms;

        let q: i64 = half_i64(self.half_size);
        let cx: i64 = self.center.x;
        let cy: i64 = self.center.y;
        let cz: i64 = self.center.z;
        let nd: u32 = self.depth + 1;
        let md: u32 = self.max_depth;
        let c0 = OctreeNode::new(Vec3 { x: cx - q, y: cy - q, z: cz - q }, q, md, nd);
        let c1 = OctreeNode::new(Vec3 { x: cx + q, y: cy - q, z: cz - q }, q, md, nd);
        let c2 = OctreeNode::new(Vec3 { x: cx - q, y: cy + q, z: cz - q }, q, md, nd);
        let c3 = OctreeNode::new(Vec3 { x: cx + q, y: cy + q, z: cz - q }, q, md, nd);
        let c4 = OctreeNode::new(Vec3 { x: cx - q, y: cy - q, z: cz + q }, q, md, nd);
        let c5 = OctreeNode::new(Vec3 { x: cx + q, y: cy - q, z: cz + q }, q, md, nd);
        let c6 = OctreeNode::new(Vec3 { x: cx - q, y: cy + q, z: cz + q }, q, md, nd);
        let c7 = OctreeNode::new(Vec3 { x: cx + q, y: cy + q, z: cz + q }, q, md, nd);
        self.children = Some(Box::new(Octants { c0, c1, c2, c3, c4, c5, c6, c7 }));
        let ghost mid = *self;
        proof {
            assert(mid.contents() =~= old(self).contents());
        }
        let olds = self.objects.split_off(0);
        let ghost frame = (self.center, self.half_size as int, self.depth, self.max_depth);
        proof {
            assert(self.objects@.to_multiset() =~= Multiset::<(EntityId, Vec3)>::empty());
            assert(olds@.subrange(0, 0) =~= Seq::<(EntityId, Vec3)>::empty());
            assert(olds@.subrange(0, 0).to_multiset() =~= Multiset::<(EntityId, Vec3)>::empty());
            assert(self.contents() =~= olds@.subrange(0, 0).to_multiset().add(
                match self.children {
                    None => Multiset::<(EntityId, Vec3)>::empty(),
                    Some(b) => b.contents(),
                },
            ));
        }
        let mut i: usize = 0;
        while i < olds.len()
            invariant
                i <= olds.len(),
                self.wf(),
                self.children is Some,
                self.center == old(self).center,
                self.half_size == old(self).half_size,
                self.depth == old(self).depth,
                self.max_depth == old(self).max_depth,
                frame == (self.center, self.half_size as int, self.depth, self.max_depth),
                olds@ == old(self).objects@,
                self.children.unwrap().octant_layout(
                    old(self).center,
                    old(self).half_size as int,
                ),
                self.contents() == olds@.subrange(0, i as int).to_multiset(),
                forall|k: int|
                    0 <= k < olds@.len() ==> spec_in_cube(
                        old(self).center,
                        old(self).half_size as int,
                        (#[trigger] olds@[k]).1,
                    ),
            decreases olds.len() - i,
        {
            let (id, pos) = olds[i];
            let ghost pre = *self;
            match self.children.take() {
                None => {
                    // children were installed above and are never removed
                    self.objects.push((id, pos));
                    proof {
                        assert(false);
                    }
                },
                Some(mut b) => {
                    let took = octants_insert(&mut *b, id, pos, Ghost(frame));
                    self.children = Some(b);
                    if !took {
                        self.objects.push((id, pos));
                        proof {
                            broadcast use vstd::seq_lib::group_to_multiset_ensures;

                            assert(self.objects@ == pre.objects@.push((id, pos)));
                        }
                    }
                    proof {
                        broadcast use vstd::seq_lib::group_to_multiset_ensures;
                        broadcast use vstd::multiset::group_multiset_axioms;

                        assert(self.contents() =~= pre.contents().insert((id, pos)));
                    }
                },
            }
            proof {
                broadcast use vstd::seq_lib::group_to_multiset_ensures;
                broadcast use vstd::multiset::group_multiset_axioms;

                assert(olds@.subrange(0, i + 1) =~= olds@.subrange(0, i as int).push(olds@[
                    i as int]));
                assert(self.contents() =~= olds@.subrange(0, i + 1).to_multiset());
            }
            i = i + 1;
        }
        proof {
            assert(olds@.subrange(0, olds@.len() as int) =~= olds@);
            assert(self.contents() =~= old(self).contents());
        }
    }
}

/// Try to hand a body to whichever single octant fully contains its
/// position: the first containing child takes it. Returns `false`, leaving
/// the octants unchanged, when no child's cube contains the position.
fn octants_insert(
    oct: &mut Octants,
    entity: EntityId,
    position: Vec3,
    frame: Ghost<(Vec3, int, u32, u32)>,
) -> (r: bool)
    requires
        old(oct).wf_under(frame@.0, frame@.1, frame@.2, frame@.3),
    ensures
        final(oct).wf_under(frame@.0, frame@.1, frame@.2, frame@.3),
        r ==> final(oct).contents() == old(oct).contents().insert((entity, position)),
        !r ==> final(oct).contents() == old(oct).contents() && *final(oct) == *old(oct),
        final(oct).same_frames(*old(oct)),
    decreases frame@.3 - frame@.2, 0int,
{
    broadcast use vstd::multiset::group_multiset_axioms;

    let ghost pre = *oct;
    if oct.c0.contains_point(&position) {
        let took = oct.c0.insert(entity, position);
        proof {
            assert(took);
            assert(oct.contents() =~= pre.contents().insert((entity, position)));
        }
        return true;
    }
    if oct.c1.contains_point(&position) {
        let took = oct.c1.insert(entity, position);
        proof {
            assert(took);
            assert(oct.contents() =~= pre.contents().insert((entity, position)));
        }
        return true;
    }
    if oct.c2.contains_point(&position) {
        let took = oct.c2.insert(entity, position);
        proof {
            assert(took);
            assert(oct.contents() =~= pre.contents().insert((entity, position)));
        }
        return true;
    }
    if oct.c3.contains_point(&position) {
        let took = oct.c3.insert(entity, position);
        proof {
            assert(took);
            assert(oct.contents() =~= pre.contents().insert((entity, position)));
        }
        return true;
    }
    if oct.c4.contains_point(&position) {
        let took = oct.c4.insert(entity, position);
        proof {
            assert(took);
            assert(oct.contents() =~= pre.contents().insert((entity, position)));
        }
        return true;
    }
    if oct.c5.contains_point(&position) {
        let took = oct.c5.insert(entity, position);
        proof {
            assert(took);
            assert(oct.contents() =~= pre.contents().insert((entity, position)));
        }
        return true;
    }
    if oct.c6.contains_point(&position) {
        let took = oct.c6.insert(entity, position);
        proof {
            assert(took);
            assert(oct.contents() =~= pre.contents().insert((entity, position)));
        }
        return true;
    }
    if oct.c7.contains_point(&position) {
        let took = oct.c7.insert(entity, position);
        proof {
            assert(took);
            assert(oct.contents() =~= pre.contents().insert((entity, position)));
        }
        return true;
    }
    false
}

/// Pushing onto a sequence keeps every element and adds exactly the new
/// one.
pub(crate) proof fn lemma_push_contains(s: Seq<EntityId>, a: EntityId)
    ensures
        forall|x: EntityId| s.contains(x) ==> #[trigger] s.push(a).contains(x),
        s.push(a).contains(a),
        forall|x: EntityId| #[trigger] s.push(a).contains(x) ==> s.contains(x) || x == a,
{
    assert forall|x: EntityId| s.contains(x) implies #[trigger] s.push(a).contains(x) by {
        let i = choose|i: int| 0 <= i < s.len() && s[i] == x;
        assert(s.push(a)[i] == x);
    }
    assert(s.push(a)[s.len() as int] == a);
    assert forall|x: EntityId| #[trigger] s.push(a).contains(x) implies s.contains(x) || x == a by {
        let i = choose|i: int| 0 <= i < s.push(a).len() && s.push(a)[i] == x;
        if i < s.len() {
            assert(s[i] == x);
        }
    }
}

impl OctreeNode {
    /// The pairs a sphere query visits: everything stored at nodes of this
    /// subtree whose cube meets the sphere. The query prunes a whole
    /// subtree at the first cube the sphere misses.
    pub open spec fn in_range_contents(self, c: Vec3, r: int) -> Multiset<(EntityId, Vec3)>
        decreases self,
    {
        if !spec_sphere_meets_cube(self.center, self.half_size as int, c, r) {
            Multiset::empty()
        } else {
            self.objects@.to_multiset().add(
                match self.children {
                    None => Multiset::empty(),
                    Some(b) => b.in_range_contents(c, r),
                },
            )
        }
    }
}

impl Octants {
    /// The pairs a sphere query visits across the eight octants.
    pub open spec fn in_range_contents(self, c: Vec3, r: int) -> Multiset<(EntityId, Vec3)>
        decreases self,
    {
        self.c0.in_range_contents(c, r).add(self.c1.in_range_contents(c, r)).add(
            self.c2.in_range_contents(c, r),
        ).add(self.c3.in_range_contents(c, r)).add(self.c4.in_range_contents(c, r)).add(
            self.c5.in_range_contents(c, r),
        ).add(self.c6.in_range_contents(c, r)).add(self.c7.in_range_contents(c, r))
    }

    /// All eight octants are well-formed subtrees.
    pub open spec fn all_wf(self) -> bool {
        &&& self.c0.wf()
        &&& self.c1.wf()
        &&& self.c2.wf()
        &&& self.c3.wf()
        &&& self.c4.wf()
        &&& self.c5.wf()
        &&& self.c6.wf()
        &&& self.c7.wf()
    }
}

/// A longer sequence that keeps a shorter one's prefix keeps any prefix of
/// that prefix too.
proof fn lemma_prefix_trans(a: Seq<EntityId>, b: Seq<EntityId>, c: Seq<EntityId>)
    requires
        a.len() <= b.len() <= c.len(),
        b.subrange(0, a.len() as int) == a,
        c.subrange(0, b.len() as int) == b,
    ensures
        c.subrange(0, a.len() as int) == a,
{
    assert forall|i: int| 0 <= i < a.len() implies c[i] == a[i] by {
        assert(b.subrange(0, a.len() as int)[i] == a[i]);
        assert(c.subrange(0, b.len() as int)[i] == b[i]);
    }
    assert(c.subrange(0, a.len() as int) =~= a);
}

impl OctreeNode {
    /// Collect into `results` every body of this subtree whose node cube
    /// meets the sphere around `center` with radius `radius`, appended
    /// after what `results` already held, which is kept in place. The
    /// appended bodies are exactly those stored at sphere-meeting nodes —
    /// a conservative superset of the bodies truly within `radius` (exact
    /// distance filtering is the caller's task), proved never to miss one.
    pub fn query_sphere(&self, center: &Vec3, radius: i64, results: &mut Vec<EntityId>)
        requires
            self.wf(),
            spec_in_bounds(*center),
            0 <= radius <= COORD_LIMIT,
        ensures
            final(results)@.len() >= old(results)@.len(),
            final(results)@.subrange(0, old(results)@.len() as int) == old(results)@,
            forall|x: EntityId|
                old(results)@.contains(x) ==> #[trigger] final(results)@.contains(x),
            forall|x: EntityId|
                #[trigger] final(results)@.contains(x) ==> old(results)@.contains(x) || exists|
                    p: Vec3,
                |
                    self.in_range_contents(*center, radius as int).contains((x, p)),
            forall|e: (EntityId, Vec3)|
                #[trigger] self.in_range_contents(*center, radius as int).contains(e)
                    ==> final(results)@.contains(e.0),
            forall|e: (EntityId, Vec3)|
                #[trigger] self.contents().contains(e) && spec_dist_sq(e.1, *center) <= radius
                    * radius ==> final(results)@.contains(e.0),
        decreases self,
    {
        broadcast use vstd::seq_lib::group_to_multiset_ensures;
        broadcast use vstd::multiset::group_multiset_axioms;

        if !self.sphere_intersects_cube(center, radius) {
            proof {
                lemma_contents_in_cube(*self);
                assert forall|e: (EntityId, Vec3)|
                    #[trigger] self.contents().contains(e) implies !(spec_dist_sq(e.1, *center)
                    <= radius * radius) by {
                    lemma_inside_point_beyond_closest(
                        self.center,
                        self.half_size as int,
                        *center,
                        e.1,
                    );
                }
                assert(results@.subrange(0, results@.len() as int) =~= results@);
            }
            return;
        }
        let ghost base = results@;
        let mut k: usize = 0;
        while k < self.objects.len()
            invariant
                k <= self.objects@.len(),
                results@.len() >= base.len(),
                results@.subrange(0, base.len() as int) == base,
                forall|x: EntityId| base.contains(x) ==> #[trigger] results@.contains(x),
                forall|x: EntityId|
                    #[trigger] results@.contains(x) ==> base.contains(x) || exists|j: int|
                        0 <= j < k && (#[trigger] self.objects@[j]).0 == x,
                forall|j: int|
                    0 <= j < k ==> results@.contains((#[trigger] self.objects@[j]).0),
            decreases self.objects@.len() - k,
        {
            let id = self.objects[k].0;
            proof {
                lemma_push_contains(results@, id);
                assert(results@.push(id).subrange(0, base.len() as int) =~= base);
            }
            results.push(id);
            k = k + 1;
        }
        let ghost mid = results@;
        proof {
            assert forall|j: int|
                0 <= j < self.objects@.len() implies self.in_range_contents(
                *center,
                radius as int,
            ).contains((#[trigger] self.objects@[j])) by {
                let e = self.objects@[j];
                assert(self.objects@.contains(e));
                assert(self.objects@.to_multiset().contains(e));
            }
        }
        match &self.children {
            None => {
                proof {
                    assert forall|e: (EntityId, Vec3)|
                        #[trigger] self.contents().contains(e) implies results@.contains(e.0) by {
                        assert(self.objects@.to_multiset().contains(e));
                        assert(self.objects@.contains(e));
                        let j = choose|j: int|
                            0 <= j < self.objects@.len() && self.objects@[j] == e;
                        assert(results@.contains(self.objects@[j].0));
                    }
                    assert forall|e: (EntityId, Vec3)|
                        #[trigger] self.in_range_contents(*center, radius as int).contains(
                        e) implies results@.contains(e.0) by {
                        assert(self.objects@.to_multiset().contains(e));
                        assert(self.objects@.contains(e));
                        let j = choose|j: int|
                            0 <= j < self.objects@.len() && self.objects@[j] == e;
                        assert(results@.contains(self.objects@[j].0));
                    }
                    assert forall|x: EntityId|
                        #[trigger] results@.contains(x) implies base.contains(x) || exists|p: Vec3|
                        self.in_range_contents(*center, radius as int).contains((x, p)) by {
                        if !base.contains(x) {
                            let j = choose|j: int|
                                0 <= j < self.objects@.len() && self.objects@[j].0 == x;
                            assert(self.in_range_contents(*center, radius as int).contains(
                                (x, self.objects@[j].1),
                            ));
                        }
                    }
                }
            },
            Some(b) => {
                octants_query(&*b, center, radius, results);
                proof {
                    lemma_prefix_trans(base, mid, results@);
                    assert forall|x: EntityId|
                        #[trigger] results@.contains(x) implies base.contains(x) || exists|p: Vec3|
                        self.in_range_contents(*center, radius as int).contains((x, p)) by {
                        if mid.contains(x) {
                            if !base.contains(x) {
                                let j = choose|j: int|
                                    0 <= j < self.objects@.len() && self.objects@[j].0 == x;
                                assert(self.in_range_contents(*center, radius as int).contains(
                                    (x, self.objects@[j].1),
                                ));
                            }
                        } else {
                            let p = choose|p: Vec3|
                                b.in_range_contents(*center, radius as int).contains((x, p));
                            assert(self.in_range_contents(*center, radius as int).contains(
                                (x, p),
                            ));
                        }
                    }
                    assert forall|e: (EntityId, Vec3)|
                        #[trigger] self.contents().contains(e) && spec_dist_sq(e.1, *center)
                        <= radius * radius implies results@.contains(e.0) by {
                        if self.objects@.to_multiset().contains(e) {
                            assert(self.objects@.contains(e));
                            let j = choose|j: int|
                                0 <= j < self.objects@.len() && self.objects@[j] == e;
                            assert(mid.contains(self.objects@[j].0));
                        } else {
                            assert(b.contents().contains(e));
                        }
                    }
                    assert forall|e: (EntityId, Vec3)|
                        #[trigger] self.in_range_contents(*center, radius as int).contains(
                        e) implies results@.contains(e.0) by {
                        if self.objects@.to_multiset().contains(e) {
                            assert(self.objects@.contains(e));
                            let j = choose|j: int|
                                0 <= j < self.objects@.len() && self.objects@[j] == e;
                            assert(mid.contains(self.objects@[j].0));
                        } else {
                            assert(b.in_range_contents(*center, radius as int).contains(e));
                        }
                    }
                }
            },
        }
    }
}

/// Query all eight octants in turn, accumulating into `results`.
fn octants_query(oct: &Octants, center: &Vec3, radius: i64, results: &mut Vec<EntityId>)
    requires
        oct.all_wf(),
        spec_in_bounds(*center),
        0 <= radius <= COORD_LIMIT,
    ensures
        final(results)@.len() >= old(results)@.len(),
        final(results)@.subrange(0, old(results)@.len() as int) == old(results)@,
        forall|x: EntityId| old(results)@.contains(x) ==> #[trigger] final(results)@.contains(x),
        forall|x: EntityId|
            #[trigger] final(results)@.contains(x) ==> old(results)@.contains(x) || exists|p: Vec3|
                oct.in_range_contents(*center, radius as int).contains((x, p)),
        forall|e: (EntityId, Vec3)|
            #[trigger] oct.in_range_contents(*center, radius as int).contains(e)
                ==> final(results)@.contains(e.0),
        forall|e: (EntityId, Vec3)|
            #[trigger] oct.contents().contains(e) && spec_dist_sq(e.1, *center) <= radius * radius
                ==> final(results)@.contains(e.0),
    decreases oct,
{
    broadcast use vstd::multiset::group_multiset_axioms;

    let ghost s0 = results@;
    oct.c0.query_sphere(center, radius, results);
    let ghost s1 = results@;
    oct.c1.query_sphere(center, radius, results);
    let ghost s2 = results@;
    proof {
        lemma_prefix_trans(s0, s1, s2);
    }
    oct.c2.query_sphere(center, radius, results);
    let ghost s3 = results@;
    proof {
        lemma_prefix_trans(s0, s2, s3);
    }
    oct.c3.query_sphere(center, radius, results);
    let ghost s4 = results@;
    proof {
        lemma_prefix_trans(s0, s3, s4);
    }
    oct.c4.query_sphere(center, radius, results);
    let ghost s5 = results@;
    proof {
        lemma_prefix_trans(s0, s4, s5);
    }
    oct.c5.query_sphere(center, radius, results);
    let ghost s6 = results@;
    proof {
        lemma_prefix_trans(s0, s5, s6);
    }
    oct.c6.query_sphere(center, radius, results);
    let ghost s7 = results@;
    proof {
        lemma_prefix_trans(s0, s6, s7);
    }
    oct.c7.query_sphere(center, radius, results);
    proof {
        lemma_prefix_trans(s0, s7, results@);
        let ghost rng_all = oct.in_range_contents(*center, radius as int);
        assert forall|x: EntityId|
            #[trigger] results@.contains(x) implies s0.contains(x) || exists|p: Vec3|
            rng_all.contains((x, p)) by {
            if !s0.contains(x) {
                if s1.contains(x) {
                    let p = choose|p: Vec3|
                        oct.c0.in_range_contents(*center, radius as int).contains((x, p));
                    assert(rng_all.contains((x, p)));
                } else if s2.contains(x) {
                    let p = choose|p: Vec3|
                        oct.c1.in_range_contents(*center, radius as int).contains((x, p));
                    assert(rng_all.contains((x, p)));
                } else if s3.contains(x) {
                    let p = choose|p: Vec3|
                        oct.c2.in_range_contents(*center, radius as int).contains((x, p));
                    assert(rng_all.contains((x, p)));
                } else if s4.contains(x) {
                    let p = choose|p: Vec3|
                        oct.c3.in_range_contents(*center, radius as int).contains((x, p));
                    assert(rng_all.contains((x, p)));
                } else if s5.contains(x) {
                    let p = choose|p: Vec3|
                        oct.c4.in_range_contents(*center, radius as int).contains((x, p));
                    assert(rng_all.contains((x, p)));
                } else if s6.contains(x) {
                    let p = choose|p: Vec3|
                        oct.c5.in_range_contents(*center, radius as int).contains((x, p));
                    assert(rng_all.contains((x, p)));
                } else if s7.contains(x) {
                    let p = choose|p: Vec3|
                        oct.c6.in_range_contents(*center, radius as int).contains((x, p));
                    assert(rng_all.contains((x, p)));
                } else {
                    let p = choose|p: Vec3|
                        oct.c7.in_range_contents(*center, radius as int).contains((x, p));
                    assert(rng_all.contains((x, p)));
                }
            }
        }
        assert forall|e: (EntityId, Vec3)|
            #[trigger] oct.contents().contains(e) && spec_dist_sq(e.1, *center) <= radius * radius
            implies results@.contains(e.0) by {
            if oct.c0.contents().contains(e) {
                assert(s1.contains(e.0));
            } else if oct.c1.contents().contains(e) {
                assert(s2.contains(e.0));
            } else if oct.c2.contents().contains(e) {
                assert(s3.contains(e.0));
            } else if oct.c3.contents().contains(e) {
                assert(s4.contains(e.0));
            } else if oct.c4.contents().contains(e) {
                assert(s5.contains(e.0));
            } else if oct.c5.contents().contains(e) {
                assert(s6.contains(e.0));
            } else if oct.c6.contents().contains(e) {
                assert(s7.contains(e.0));
            } else {
                assert(oct.c7.contents().contains(e));
            }
        }
        assert forall|e: (EntityId, Vec3)|
            #[trigger] rng_all.contains(e) implies results@.contains(e.0) by {
            if oct.c0.in_range_contents(*center, radius as int).contains(e) {
                assert(s1.contains(e.0));
            } else if oct.c1.in_range_contents(*center, radius as int).contains(e) {
                assert(s2.contains(e.0));
            } else if oct.c2.in_range_contents(*center, radius as int).contains(e) {
                assert(s3.contains(e.0));
            } else if oct.c3.in_range_contents(*center, radius as int).contains(e) {
                assert(s4.contains(e.0));
            } else if oct.c4.in_range_contents(*center, radius as int).contains(e) {
                assert(s5.contains(e.0));
            } else if oct.c5.in_range_contents(*center, radius as int).contains(e) {
                assert(s6.contains(e.0));
            } else if oct.c6.in_range_contents(*center, radius as int).contains(e) {
                assert(s7.contains(e.0));
            } else {
                assert(oct.c7.in_range_contents(*center, radius as int).contains(e));
            }
        }
    }
}

impl OctreeNode {
    /// Remove one stored occurrence of `entity` from the subtree, guided by
    /// `position` (normally the position the body was last indexed under).
    /// The node whose cube holds `position` is searched for the entity by
    /// identity alone, and children are searched recursively, so a body
    /// whose live position has drifted from its indexed one is still found
    /// as long as both lie in the same node's cube. Returns whether an
    /// occurrence was removed; if the exact `(entity, position)` pair is
    /// stored, removal is guaranteed.
    pub fn remove(&mut self, entity: EntityId, position: Vec3) -> (r: bool)
        requires
            old(self).wf(),
        ensures
            final(self).wf(),
            r ==> exists|p: Vec3|
                old(self).contents().contains((entity, p)) && final(self).contents() == old(
                    self,
                ).contents().remove((entity, p)),
            !r ==> final(self).contents() == old(self).contents(),
            old(self).contents().contains((entity, position)) ==> r,
            !spec_in_cube(old(self).center, old(self).half_size as int, position) ==> !r
                && *final(self) == *old(self),
            final(self).children is Some <==> old(self).children is Some,
            final(self).center == old(self).center,
            final(self).half_size == old(self).half_size,
            final(self).depth == old(self).depth,
            final(self).max_depth == old(self).max_depth,
        decreases *old(self),
    {
        broadcast use vstd::seq_lib::group_to_multiset_ensures;
        broadcast use vstd::multiset::group_multiset_axioms;

        if !self.contains_point(&position) {
            proof {
                if self.contents().contains((entity, position)) {
                    lemma_contents_in_cube(*self);
                }
            }
            return false;
        }
        let n: usize = self.objects.len();
        let mut m: usize = 0;
        while m < n
            invariant
                m <= n,
                n == self.objects@.len(),
                *self == *old(self),
                forall|j: int| 0 <= j < m ==> (#[trigger] self.objects@[j]).0 != entity,
            ensures
                m <= n,
                n == self.objects@.len(),
                *self == *old(self),
                forall|j: int| 0 <= j < m ==> (#[trigger] self.objects@[j]).0 != entity,
                m < n ==> self.objects@[m as int].0 == entity,
            decreases n - m,
        {
            if self.objects[m].0 == entity {
                break;
            }
            m = m + 1;
        }
        if m < n {
            let ghost pre = *self;
            let ghost victim = self.objects@[m as int];
            self.objects.remove(m);
            proof {
                assert(self.objects@ == pre.objects@.remove(m as int));
                assert(self.objects@.to_multiset() =~= pre.objects@.to_multiset().remove(victim));
                assert(pre.objects@.contains(victim));
                assert(pre.objects@.to_multiset().contains(victim));
                assert(pre.contents().contains(victim));
                assert(self.contents() =~= pre.contents().remove(victim));
                assert forall|j: int|
                    0 <= j < self.objects@.len() implies spec_in_cube(
                    self.center,
                    self.half_size as int,
                    (#[trigger] self.objects@[j]).1,
                ) by {
                    if j < m {
                        assert(self.objects@[j] == pre.objects@[j]);
                    } else {
                        assert(self.objects@[j] == pre.objects@[j + 1]);
                    }
                }
            }
            return true;
        }
        let ghost pre = *self;
        let ghost frame = (self.center, self.half_size as int, self.depth, self.max_depth);
        match self.children.take() {
            None => {
                proof {
                    assert(*self == OctreeNode { children: None, ..pre });
                    if pre.contents().contains((entity, position)) {
                        assert(pre.objects@.to_multiset().contains((entity, position)));
                        assert(pre.objects@.contains((entity, position)));
                        let j = choose|j: int|
                            0 <= j < pre.objects@.len() && pre.objects@[j] == (entity, position);
                        assert(pre.objects@[j].0 == entity);
                        assert(false);
                    }
                }
                false
            },
            Some(mut b) => {
                let r = octants_remove(&mut *b, entity, position, Ghost(frame));
                self.children = Some(b);
                proof {
                    if r {
                        let p = choose|p: Vec3|
                            pre.children.unwrap().contents().contains((entity, p))
                                && b.contents() == pre.children.unwrap().contents().remove(
                                (entity, p),
                            );
                        assert(pre.contents().contains((entity, p)));
                        assert(self.contents() =~= pre.contents().remove((entity, p)));
                    } else {
                        assert(self.contents() =~= pre.contents());
                        if pre.contents().contains((entity, position)) {
                            if pre.objects@.to_multiset().contains((entity, position)) {
                                assert(pre.objects@.contains((entity, position)));
                                let j = choose|j: int|
                                    0 <= j < pre.objects@.len() && pre.objects@[j] == (
                                    entity,
                                    position,
                                );
                                assert(pre.objects@[j].0 == entity);
                                assert(false);
                            } else {
                                assert(pre.children.unwrap().contents().contains(
                                    (entity, position),
                                ));
                                assert(false);
                            }
                        }
                    }
                }
                r
            },
        }
    }
}

/// Remove one stored occurrence of `entity` from the first octant that
/// yields one.
fn octants_remove(
    oct: &mut Octants,
    entity: EntityId,
    position: Vec3,
    frame: Ghost<(Vec3, int, u32, u32)>,
) -> (r: bool)
    requires
        old(oct).wf_under(frame@.0, frame@.1, frame@.2, frame@.3),
    ensures
        final(oct).wf_under(frame@.0, frame@.1, frame@.2, frame@.3),
        r ==> exists|p: Vec3|
            old(oct).contents().contains((entity, p)) && final(oct).contents() == old(
                oct,
            ).contents().remove((entity, p)),
        !r ==> final(oct).contents() == old(oct).contents(),
        old(oct).contents().contains((entity, position)) ==> r,
    decreases *old(oct),
{
    broadcast use vstd::multiset::group_multiset_axioms;

    let ghost pre = *oct;
    if oct.c0.remove(entity, position) {
        proof {
            lift_removed(pre, *oct, entity, 0);
        }
        return true;
    }
    if oct.c1.remove(entity, position) {
        proof {
            lift_removed(pre, *oct, entity, 1);
        }
        return true;
    }
    if oct.c2.remove(entity, position) {
        proof {
            lift_removed(pre, *oct, entity, 2);
        }
        return true;
    }
    if oct.c3.remove(entity, position) {
        proof {
            lift_removed(pre, *oct, entity, 3);
        }
        return true;
    }
    if oct.c4.remove(entity, position) {
        proof {
            lift_removed(pre, *oct, entity, 4);
        }
        return true;
    }
    if oct.c5.remove(entity, position) {
        proof {
            lift_removed(pre, *oct, entity, 5);
        }
        return true;
    }
    if oct.c6.remove(entity, position) {
        proof {
            lift_removed(pre, *oct, entity, 6);
        }
        return true;
    }
    if oct.c7.remove(entity, position) {
        proof {
            lift_removed(pre, *oct, entity, 7);
        }
        return true;
    }
    proof {
        assert(oct.contents() =~= pre.contents());
        if pre.contents().contains((entity, position)) {
            assert(pre.c0.contents().contains((entity, position)) || pre.c1.contents().contains(
                (entity, position),
            ) || pre.c2.contents().contains((entity, position)) || pre.c3.contents().contains(
                (entity, position),
            ) || pre.c4.contents().contains((entity, position)) || pre.c5.contents().contains(
                (entity, position),
            ) || pre.c6.contents().contains((entity, position)) || pre.c7.contents().contains(
                (entity, position),
            ));
            assert(false);
        }
    }
    false
}

/// One octant lost one occurrence of `entity` and the other seven are
/// untouched: the whole octant set lost exactly that occurrence.
proof fn lift_removed(pre: Octants, now: Octants, entity: EntityId, which: int)
    requires
        0 <= which < 8,
        which != 0 ==> now.c0.contents() == pre.c0.contents(),
        which != 1 ==> now.c1.contents() == pre.c1.contents(),
        which != 2 ==> now.c2.contents() == pre.c2.contents(),
        which != 3 ==> now.c3.contents() == pre.c3.contents(),
        which != 4 ==> now.c4.contents() == pre.c4.contents(),
        which != 5 ==> now.c5.contents() == pre.c5.contents(),
        which != 6 ==> now.c6.contents() == pre.c6.contents(),
        which != 7 ==> now.c7.contents() == pre.c7.contents(),
        exists|p: Vec3|
            octant_of(pre, which).contents().contains((entity, p)) && octant_of(
                now,
                which,
            ).contents() == octant_of(pre, which).contents().remove((entity, p)),
    ensures
        exists|p: Vec3|
            pre.contents().contains((entity, p)) && now.contents() == pre.contents().remove(
                (entity, p),
            ),
{
    broadcast use vstd::multiset::group_multiset_axioms;

    let p = choose|p: Vec3|
        octant_of(pre, which).contents().contains((entity, p)) && octant_of(
            now,
            which,
        ).contents() == octant_of(pre, which).contents().remove((entity, p));
    assert(pre.contents().contains((entity, p)));
    assert(now.contents() =~= pre.contents().remove((entity, p)));
}

/// The octant at a given index, for stating facts uniformly over all eight.
pub open spec fn octant_of(oct: Octants, which: int) -> OctreeNode {
    if which == 0 {
        oct.c0
    } else if which == 1 {
        oct.c1
    } else if which == 2 {
        oct.c2
    } else if which == 3 {
        oct.c3
    } else if which == 4 {
        oct.c4
    } else if which == 5 {
        oct.c5
    } else if which == 6 {
        oct.c6
    } else {
        oct.c7
    }
}

/// The spatial index over the full modeled orbital regime: a root cube
/// centred on the central body, fifty thousand kilometres of half width,
/// subdividing at most six levels deep.
pub struct SpatialOctree {
    pub root: OctreeNode,
}

/// Half width of the root cube in millimetres: 50,000 km.
pub const ROOT_HALF_SIZE_MM: i64 = 50_000_000_000;

/// Greatest depth of the index.
pub const ROOT_MAX_DEPTH: u32 = 6;

impl Default for SpatialOctree {
    /// An empty index over the orbital regime around the central body.
    fn default() -> (octree: SpatialOctree)
        ensures
            octree.root.wf(),
            octree.root.contents() == Multiset::<(EntityId, Vec3)>::empty(),
            octree.root.center == (Vec3 { x: 0, y: 0, z: 0 }),
            octree.root.half_size == ROOT_HALF_SIZE_MM,
            octree.root.max_depth == ROOT_MAX_DEPTH,
            octree.root.depth == 0,
    {
        SpatialOctree {
            root: OctreeNode::new(
                Vec3 { x: 0, y: 0, z: 0 },
                ROOT_HALF_SIZE_MM,
                ROOT_MAX_DEPTH,
                0,
            ),
        }
    }
}

/// Two bodies stored at an identical position are always returned together
/// by any sphere query whose radius reaches that position: a query answer
/// that is complete for the subtree (as `query_sphere` guarantees) holds
/// either both or neither, and the position being within the sphere makes
/// it both.
pub proof fn lemma_same_position_queried_together(
    node: OctreeNode,
    out: Seq<EntityId>,
    a: EntityId,
    b: EntityId,
    p: Vec3,
    center: Vec3,
    radius: int,
)
    requires
        node.contents().contains((a, p)),
        node.contents().contains((b, p)),
        spec_dist_sq(p, center) <= radius * radius,
        forall|e: (EntityId, Vec3)|
            #[trigger] node.contents().contains(e) && spec_dist_sq(e.1, center) <= radius * radius
                ==> out.contains(e.0),
    ensures
        out.contains(a),
        out.contains(b),
{
    assert(node.contents().contains((a, p)) && spec_dist_sq(p, center) <= radius * radius);
    assert(node.contents().contains((b, p)) && spec_dist_sq(p, center) <= radius * radius);
}

} // verus!