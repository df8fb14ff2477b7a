use vstd::prelude::*;
use crate::graphics::image::ImageModel;
use crate::graphics::pixel_bounds::PixelBounds;

verus! {

/// What a node of the packing tree holds.
#[derive(Debug)]
pub enum AtlasNodeState {
    /// Free space.
    Unused,
    /// A node that only groups its two children.
    Used,
    /// A node whose top-left corner holds the image at this position of the
    /// builder's image list.
    UsedLeaf(usize),
}

impl AtlasNodeState {
    pub open spec fn spec_is_used(self) -> bool {
        !(self is Unused)
    }

    pub fn is_used(&self) -> (used: bool)
        ensures
            used == self.spec_is_used(),
    {
        match self {
            AtlasNodeState::Unused => false,
            _ => true,
        }
    }
}

/// A node of the binary tree that packs images into one rectangle.
#[derive(Debug)]
pub struct AtlasNode {
    pub bounds: PixelBounds,
    pub state: AtlasNodeState,
    pub children: Option<Box<(AtlasNode, AtlasNode)>>,
}

/// A free node covering the given rectangle.
pub open spec fn free_node(x: u32, y: u32, w: u32, h: u32) -> AtlasNode {
    AtlasNode { bounds: PixelBounds { x, y, w, h }, state: AtlasNodeState::Unused, children: None }
}

/// The root of a tree that holds only the image at position `pos`, which
/// is `w` x `h` pixels.
pub open spec fn root_node(pos: usize, w: u32, h: u32) -> AtlasNode {
    AtlasNode {
        bounds: PixelBounds { x: 0, y: 0, w, h },
        state: AtlasNodeState::UsedLeaf(pos),
        children: None,
    }
}

/// `n` after the `w` x `h` image at position `pos` was put in its top-left
/// corner: the space below it and the space right of it become free nodes.
/// The right one keeps the node's full height, so the two may overlap.
pub open spec fn with_sprite(n: AtlasNode, pos: usize, w: u32, h: u32) -> AtlasNode {
    AtlasNode {
        bounds: n.bounds,
        state: AtlasNodeState::UsedLeaf(pos),
        children: Some(
            Box::new(
                (
                    free_node(n.bounds.x, (n.bounds.y + h) as u32, n.bounds.w, (n.bounds.h - h) as u32),
                    free_node((n.bounds.x + w) as u32, n.bounds.y, (n.bounds.w - w) as u32, n.bounds.h),
                ),
            ),
        ),
    }
}

/// The tree after the `w` x `h` image at position `pos` was put in the first
/// free node that can hold it, searching depth first, first child before
/// second; `None` where no free node can hold it.
pub open spec fn place(n: AtlasNode, pos: usize, w: u32, h: u32) -> Option<AtlasNode>
    decreases n,
{
    if n.state.spec_is_used() {
        match n.children {
            None => None,
            Some(pair) => match place(pair.0, pos, w, h) {
                Some(first) => Some(
                    AtlasNode { bounds: n.bounds, state: n.state, children: Some(Box::new((first, pair.1))) },
                ),
                None => match place(pair.1, pos, w, h) {
                    Some(second) => Some(
                        AtlasNode {
                            bounds: n.bounds,
                            state: n.state,
                            children: Some(Box::new((pair.0, second))),
                        },
                    ),
                    None => None,
                },
            },
        }
    } else if n.bounds.w >= w && n.bounds.h >= h {
        Some(with_sprite(n, pos, w, h))
    } else {
        None
    }
}

/// The root `n`, widened by `w` pixels: the old tree is the first child, the
/// new column a free second child.
pub open spec fn grown_right(n: AtlasNode, w: u32) -> AtlasNode {
    AtlasNode {
        bounds: PixelBounds { x: 0, y: 0, w: (n.bounds.w + w) as u32, h: n.bounds.h },
        state: AtlasNodeState::Used,
        children: Some(Box::new((n, free_node(n.bounds.w, 0, w, n.bounds.h)))),
    }
}

/// The root `n`, heightened by `h` pixels: the new row is a free first
/// child, the old tree the second child.
pub open spec fn grown_down(n: AtlasNode, h: u32) -> AtlasNode {
    AtlasNode {
        bounds: PixelBounds { x: 0, y: 0, w: n.bounds.w, h: (n.bounds.h + h) as u32 },
        state: AtlasNodeState::Used,
        children: Some(Box::new((free_node(0, n.bounds.h, n.bounds.w, h), n))),
    }
}

/// Whether making room for a `w` x `h` image overflows `u32` in the sums
/// that decide which way to grow.
pub open spec fn grow_overflows(n: AtlasNode, w: u32, h: u32) -> bool {
    ||| (n.bounds.w >= w && n.bounds.w + w > u32::MAX)
    ||| (n.bounds.h >= h && n.bounds.h + h > u32::MAX)
}

/// The root `n` grown to make room for a `w` x `h` image: to the right when
/// the tree is at least as tall as it would then be wide, down when it is at
/// least as wide as it would then be tall, else right if the image is no
/// wider than the tree, else down if it is no taller; `None` where neither is
/// possible or the sums overflow.
pub open spec fn grow(n: AtlasNode, w: u32, h: u32) -> Option<AtlasNode> {
    let can_right = n.bounds.w >= w;
    let can_down = n.bounds.h >= h;
    let should_right = can_right && n.bounds.h >= n.bounds.w + w;
    let should_down = can_down && n.bounds.w >= n.bounds.h + h;
    if grow_overflows(n, w, h) {
        None
    } else if should_right {
        Some(grown_right(n, w))
    } else if should_down {
        Some(grown_down(n, h))
    } else if can_right {
        Some(grown_right(n, w))
    } else if can_down {
        Some(grown_down(n, h))
    } else {
        None
    }
}

/// The tree after the `w` x `h` image at position `pos` was inserted: placed
/// in a free node, or else placed after growing the root once.
pub open spec fn insert(n: AtlasNode, pos: usize, w: u32, h: u32) -> Option<AtlasNode> {
    match place(n, pos, w, h) {
        Some(t) => Some(t),
        None => match grow(n, w, h) {
            Some(g) => place(g, pos, w, h),
            None => None,
        },
    }
}

/// Every node's rectangle lies within `w` x `h` pixels from the origin.
pub open spec fn within(n: AtlasNode, w: int, h: int) -> bool
    decreases n,
{
    &&& n.bounds.x + n.bounds.w <= w
    &&& n.bounds.y + n.bounds.h <= h
    &&& match n.children {
        None => true,
        Some(pair) => within(pair.0, w, h) && within(pair.1, w, h),
    }
}

/// Every leaf names an image of `images` that fits its node.
pub open spec fn leaves_fit(n: AtlasNode, images: Seq<ImageModel>) -> bool
    decreases n,
{
    &&& match n.state {
        AtlasNodeState::UsedLeaf(pos) => {
            &&& pos < images.len()
            &&& images[pos as int].width <= n.bounds.w
            &&& images[pos as int].height <= n.bounds.h
        },
        _ => true,
    }
    &&& match n.children {
        None => true,
        Some(pair) => leaves_fit(pair.0, images) && leaves_fit(pair.1, images),
    }
}

/// The images of the tree, as (position, x, y), in the order a depth-first
/// walk visits them: a node, then its second child, then its first.
pub open spec fn leaves(n: AtlasNode) -> Seq<(usize, u32, u32)>
    decreases n,
{
    let own = match n.state {
        AtlasNodeState::UsedLeaf(pos) => seq![(pos, n.bounds.x, n.bounds.y)],
        _ => Seq::empty(),
    };
    let below = if n.state.spec_is_used() {
        match n.children {
            Some(pair) => leaves(pair.1) + leaves(pair.0),
            None => Seq::empty(),
        }
    } else {
        Seq::empty()
    };
    own + below
}

/// A looser bound holds too.
pub proof fn lemma_within_mono(n: AtlasNode, w: int, h: int, w2: int, h2: int)
    requires
        within(n, w, h),
        w <= w2,
        h <= h2,
    ensures
        within(n, w2, h2),
    decreases n,
{
    if let Some(pair) = n.children {
        lemma_within_mono(pair.0, w, h, w2, h2);
        lemma_within_mono(pair.1, w, h, w2, h2);
    }
}

/// Placing an image that fits keeps the tree within its bounds and keeps
/// every leaf fitting.
pub proof fn lemma_place_keeps(
    n: AtlasNode,
    pos: usize,
    images: Seq<ImageModel>,
    w: int,
    h: int,
)
    requires
        within(n, w, h),
        leaves_fit(n, images),
        pos < images.len(),
        place(n, pos, images[pos as int].width, images[pos as int].height) is Some,
    ensures
        ({
            let t = place(n, pos, images[pos as int].width, images[pos as int].height)->0;
            &&& within(t, w, h)
            &&& leaves_fit(t, images)
            &&& t.bounds == n.bounds
        }),
    decreases n,
{
    let iw = images[pos as int].width;
    let ih = images[pos as int].height;
    if n.state.spec_is_used() {
        if let Some(pair) = n.children {
            if place(pair.0, pos, iw, ih) is Some {
                lemma_place_keeps(pair.0, pos, images, w, h);
            } else {
                lemma_place_keeps(pair.1, pos, images, w, h);
            }
        }
    } else {
        let t = with_sprite(n, pos, iw, ih);
        let pair = t.children->0;
        assert(within(pair.0, w, h));
        assert(within(pair.1, w, h));
        assert(leaves_fit(pair.0, images));
        assert(leaves_fit(pair.1, images));
    }
}

/// Growing keeps the root at the origin and the tree within the new root.
pub proof fn lemma_grow_within(n: AtlasNode, w: u32, h: u32)
    requires
        n.bounds.x == 0,
        n.bounds.y == 0,
        within(n, n.bounds.w as int, n.bounds.h as int),
        grow(n, w, h) is Some,
    ensures
        ({
            let g = grow(n, w, h)->0;
            &&& g.bounds.x == 0
            &&& g.bounds.y == 0
            &&& within(g, g.bounds.w as int, g.bounds.h as int)
            &&& g.bounds.w >= n.bounds.w
            &&& g.bounds.h >= n.bounds.h
        }),
{
    let g = grow(n, w, h)->0;
    lemma_within_mono(n, n.bounds.w as int, n.bounds.h as int, g.bounds.w as int, g.bounds.h as int);
    let pair = g.children->0;
    assert(within(pair.0, g.bounds.w as int, g.bounds.h as int));
    assert(within(pair.1, g.bounds.w as int, g.bounds.h as int));
}

/// Growing keeps every leaf fitting, keeps the root at the origin and keeps
/// the tree within the new root.
pub proof fn lemma_grow_keeps(n: AtlasNode, images: Seq<ImageModel>, w: u32, h: u32)
    requires
        n.bounds.x == 0,
        n.bounds.y == 0,
        within(n, n.bounds.w as int, n.bounds.h as int),
        leaves_fit(n, images),
        grow(n, w, h) is Some,
    ensures
        ({
            let g = grow(n, w, h)->0;
            &&& g.bounds.x == 0
            &&& g.bounds.y == 0
            &&& within(g, g.bounds.w as int, g.bounds.h as int)
            &&& leaves_fit(g, images)
            &&& g.bounds.w >= n.bounds.w
            &&& g.bounds.h >= n.bounds.h
        }),
{
    let g = grow(n, w, h)->0;
    lemma_within_mono(n, n.bounds.w as int, n.bounds.h as int, g.bounds.w as int, g.bounds.h as int);
    let pair = g.children->0;
    assert(leaves_fit(pair.0, images) && leaves_fit(pair.1, images));
    assert(within(pair.0, g.bounds.w as int, g.bounds.h as int));
    assert(within(pair.1, g.bounds.w as int, g.bounds.h as int));
}

/// Placing keeps every leaf and adds one for the placed image.
pub proof fn lemma_place_leaves(n: AtlasNode, pos: usize, w: u32, h: u32)
    requires
        place(n, pos, w, h) is Some,
    ensures
        ({
            let t = place(n, pos, w, h)->0;
            &&& forall|s: (usize, u32, u32)| leaves(n).contains(s) ==> #[trigger] leaves(t).contains(s)
            &&& exists|j: int| 0 <= j < leaves(t).len() && (#[trigger] leaves(t)[j]).0 == pos
        }),
    decreases n,
{
    let t = place(n, pos, w, h)->0;
    if n.state.spec_is_used() {
        let pair = n.children->0;
        let own = match n.state {
            AtlasNodeState::UsedLeaf(p) => seq![(p, n.bounds.x, n.bounds.y)],
            _ => Seq::empty(),
        };
        assert(leaves(n) == own + (leaves(pair.1) + leaves(pair.0)));
        let tp = t.children->0;
        assert(leaves(t) == own + (leaves(tp.1) + leaves(tp.0)));
        if place(pair.0, pos, w, h) is Some {
            lemma_place_leaves(pair.0, pos, w, h);
            assert(tp.1 == pair.1);
            let j = choose|j: int| 0 <= j < leaves(tp.0).len() && (#[trigger] leaves(tp.0)[j]).0 == pos;
            assert(leaves(t)[own.len() + leaves(tp.1).len() + j] == leaves(tp.0)[j]);
        } else {
            lemma_place_leaves(pair.1, pos, w, h);
            assert(tp.0 == pair.0);
            let j = choose|j: int| 0 <= j < leaves(tp.1).len() && (#[trigger] leaves(tp.1)[j]).0 == pos;
            assert(leaves(t)[own.len() + j] == leaves(tp.1)[j]);
        }
        assert forall|s: (usize, u32, u32)| leaves(n).contains(s) implies #[trigger] leaves(t).contains(s) by {
            let k = choose|k: int| 0 <= k < leaves(n).len() && leaves(n)[k] == s;
            if k < own.len() {
                assert(leaves(t)[k] == s);
            } else if k < own.len() + leaves(pair.1).len() {
                assert(leaves(pair.1).contains(s)) by {
                    assert(leaves(pair.1)[k - own.len()] == s);
                }
                assert(leaves(tp.1).contains(s));
                let m = choose|m: int| 0 <= m < leaves(tp.1).len() && leaves(tp.1)[m] == s;
                assert(leaves(t)[own.len() + m] == s);
            } else {
                assert(leaves(pair.0).contains(s)) by {
                    assert(leaves(pair.0)[k - own.len() - leaves(pair.1).len()] == s);
                }
                assert(leaves(tp.0).contains(s));
                let m = choose|m: int| 0 <= m < leaves(tp.0).len() && leaves(tp.0)[m] == s;
                assert(leaves(t)[own.len() + leaves(tp.1).len() + m] == s);
            }
        }
    } else {
        assert(leaves(n) =~= Seq::empty());
        let tp = t.children->0;
        assert(leaves(tp.0) =~= Seq::empty());
        assert(leaves(tp.1) =~= Seq::empty());
        assert(leaves(t)[0].0 == pos);
    }
}

/// Growing keeps every leaf.
pub proof fn lemma_grow_leaves(n: AtlasNode, w: u32, h: u32)
    requires
        grow(n, w, h) is Some,
    ensures
        forall|s: (usize, u32, u32)|
            leaves(n).contains(s) ==> #[trigger] leaves(grow(n, w, h)->0).contains(s),
{
    let g = grow(n, w, h)->0;
    let pair = g.children->0;
    assert(leaves(g) == leaves(pair.1) + leaves(pair.0));
    if pair.0 == n {
        assert(leaves(pair.1) =~= Seq::empty());
        assert(leaves(g) =~= leaves(n));
    } else {
        assert(leaves(pair.0) =~= Seq::empty());
        assert(leaves(g) =~= leaves(n));
    }
}

/// Growing only adds free space outside the old tree: the grown root keeps
/// the old tree as one child, whole, and the other child is a free node
/// lying beside it (right of its width) or below it (under its height),
/// inside the grown root, which covers the old one.
pub proof fn lemma_growth_is_outside(n: AtlasNode, w: u32, h: u32)
    requires
        n.bounds.x == 0,
        n.bounds.y == 0,
        grow(n, w, h) is Some,
    ensures
        ({
            let g = grow(n, w, h)->0;
            &&& g.bounds.x == 0 && g.bounds.y == 0
            &&& g.bounds.w >= n.bounds.w && g.bounds.h >= n.bounds.h
            &&& g.state.spec_is_used() && !(g.state is UsedLeaf)
            &&& g.children matches Some(pair) && {
                let added = if pair.0 == n {
                    pair.1
                } else {
                    pair.0
                };
                &&& (pair.0 == n || pair.1 == n)
                &&& added.state is Unused && added.children is None
                &&& (added.bounds.x >= n.bounds.w || added.bounds.y >= n.bounds.h)
                &&& added.bounds.x + added.bounds.w <= g.bounds.w
                &&& added.bounds.y + added.bounds.h <= g.bounds.h
            }
        }),
{
}

impl AtlasNode {
    /// The root of a tree that holds only the `w` x `h` image at `pos`.
    pub fn root(pos: usize, w: u32, h: u32) -> (n: Self)
        ensures
            n == root_node(pos, w, h),
    {
        AtlasNode {
            bounds: PixelBounds { x: 0, y: 0, w, h },
            state: AtlasNodeState::UsedLeaf(pos),
            children: None,
        }
    }

    /// A free node covering the given rectangle.
    pub fn from_bounds(x: u32, y: u32, w: u32, h: u32) -> (n: Self)
        ensures
            n == free_node(x, y, w, h),
    {
        AtlasNode { bounds: PixelBounds { x, y, w, h }, state: AtlasNodeState::Unused, children: None }
    }

    /// Puts the `w` x `h` image at `pos` in the top-left corner of this node.
    pub fn set_sprite(&mut self, pos: usize, w: u32, h: u32)
        requires
            old(self).bounds.w >= w,
            old(self).bounds.h >= h,
            old(self).bounds.x + old(self).bounds.w <= u32::MAX,
            old(self).bounds.y + old(self).bounds.h <= u32::MAX,
        ensures
            *final(self) == with_sprite(*old(self), pos, w, h),
    {
        let bounds = self.bounds;
        self.state = AtlasNodeState::UsedLeaf(pos);
        self.children = Some(
            Box::new(
                (
                    Self::from_bounds(bounds.x, bounds.y + h, bounds.w, bounds.h - h),
                    Self::from_bounds(bounds.x + w, bounds.y, bounds.w - w, bounds.h),
                ),
            ),
        );
    }

    /// Puts the `w` x `h` image at `pos` in the first free node that can
    /// hold it; returns whether there was one.
    pub fn place_sprite(&mut self, pos: usize, w: u32, h: u32) -> (placed: bool)
        requires
            within(*old(self), u32::MAX as int, u32::MAX as int),
        ensures
            placed == place(*old(self), pos, w, h) is Some,
            placed ==> *final(self) == place(*old(self), pos, w, h)->0,
            !placed ==> *final(self) == *old(self),
        decreases *old(self),
    {
        if self.state.is_used() {
            let children = self.children.take();
            match children {
                None => false,
                Some(pair) => {
                    let (mut first, mut second) = *pair;
                    if first.place_sprite(pos, w, h) {
                        self.children = Some(Box::new((first, second)));
                        true
                    } else if second.place_sprite(pos, w, h) {
                        self.children = Some(Box::new((first, second)));
                        true
                    } else {
                        self.children = Some(Box::new((first, second)));
                        false
                    }
                },
            }
        } else if self.bounds.w >= w && self.bounds.h >= h {
            self.set_sprite(pos, w, h);
            true
        } else {
            false
        }
    }

    /// Makes this root `w` pixels wider; the new column is free.
    pub fn grow_right(&mut self, w: u32)
        requires
            old(self).bounds.w + w <= u32::MAX,
        ensures
            *final(self) == grown_right(*old(self), w),
    {
        let bounds = self.bounds;
        let mut old = Self::from_bounds(0, 0, 0, 0);
        core::mem::swap(&mut old, self);
        *self = AtlasNode {
            bounds: PixelBounds { x: 0, y: 0, w: bounds.w + w, h: bounds.h },
            state: AtlasNodeState::Used,
            children: Some(Box::new((old, Self::from_bounds(bounds.w, 0, w, bounds.h)))),
        };
    }

    /// Makes this root `h` pixels taller; the new row is free.
    pub fn grow_down(&mut self, h: u32)
        requires
            old(self).bounds.h + h <= u32::MAX,
        ensures
            *final(self) == grown_down(*old(self), h),
    {
        let bounds = self.bounds;
        let mut old = Self::from_bounds(0, 0, 0, 0);
        core::mem::swap(&mut old, self);
        *self = AtlasNode {
            bounds: PixelBounds { x: 0, y: 0, w: bounds.w, h: bounds.h + h },
            state: AtlasNodeState::Used,
            children: Some(Box::new((Self::from_bounds(0, bounds.h, bounds.w, h), old))),
        };
    }

    /// Grows this root to make room for a `w` x `h` image (see `grow`);
    /// returns whether it grew.
    pub fn grow(&mut self, w: u32, h: u32) -> (grew: bool)
        ensures
            grew == grow(*old(self), w, h) is Some,
            grew ==> *final(self) == grow(*old(self), w, h)->0,
            !grew ==> *final(self) == *old(self),
    {
        let can_grow_right = self.bounds.w >= w;
        let can_grow_down = self.bounds.h >= h;
        if (can_grow_right && self.bounds.w > u32::MAX - w) || (can_grow_down && self.bounds.h
            > u32::MAX - h) {
            return false;
        }
        let should_grow_right = can_grow_right && (self.bounds.h >= self.bounds.w + w);
        let should_grow_down = can_grow_down && (self.bounds.w >= self.bounds.h + h);

        if should_grow_right {
            self.grow_right(w);
            true
        } else if should_grow_down {
            self.grow_down(h);
            true
        } else if can_grow_right {
            self.grow_right(w);
            true
        } else if can_grow_down {
            self.grow_down(h);
            true
        } else {
            false
        }
    }

    /// Inserts the `w` x `h` image at `pos` (see `insert`); returns whether
    /// it found room.
    pub fn insert(&mut self, pos: usize, w: u32, h: u32) -> (inserted: bool)
        requires
            old(self).bounds.x == 0,
            old(self).bounds.y == 0,
            within(*old(self), old(self).bounds.w as int, old(self).bounds.h as int),
        ensures
            inserted == insert(*old(self), pos, w, h) is Some,
            inserted ==> *final(self) == insert(*old(self), pos, w, h)->0,
    {
        proof {
            lemma_within_mono(*self, self.bounds.w as int, self.bounds.h as int, u32::MAX as int, u32::MAX as int);
        }
        if self.place_sprite(pos, w, h) {
            return true;
        }
        let ghost before = *self;
        if !self.grow(w, h) {
            return false;
        }
        proof {
            let g = *self;
            lemma_grow_within(before, w, h);
            lemma_within_mono(g, g.bounds.w as int, g.bounds.h as int, u32::MAX as int, u32::MAX as int);
        }
        self.place_sprite(pos, w, h)
    }

    /// Appends the images of this tree, as (position, x, y), to `out`, in
    /// the order of `leaves`.
    pub fn for_each_leaf(&self, out: &mut Vec<(usize, u32, u32)>)
        ensures
            final(out)@ == old(out)@ + leaves(*self),
        decreases *self,
    {
        let ghost start = out@;
        if let AtlasNodeState::UsedLeaf(pos) = self.state {
            out.push((pos, self.bounds.x, self.bounds.y));
        }
        let ghost after_own = out@;
        if self.state.is_used() {
            if let Some(pair) = &self.children {
                pair.1.for_each_leaf(out);
                pair.0.for_each_leaf(out);
            }
        }
        proof {
            assert(out@ =~= start + leaves(*self));
        }
    }
}

} // verus!
