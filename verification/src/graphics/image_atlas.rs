use vstd::prelude::*;
use crate::graphics::atlas_node::{
    grow, insert, leaves, leaves_fit, lemma_grow_keeps, lemma_grow_leaves, lemma_place_keeps,
    lemma_place_leaves, place, root_node, within, AtlasNode,
};
use crate::graphics::image::{blit, blit_into, rgba_len, Image, ImageModel};
use crate::graphics::pixel_bounds::PixelBounds;

verus! {

/// The longer side of an image: the key by which images are packed, larger
/// first.
pub open spec fn max_dimension(m: ImageModel) -> int {
    if m.width >= m.height {
        m.width as int
    } else {
        m.height as int
    }
}

/// `order` (positions into `images`) after the entry at `pos` was moved up
/// towards the front while it is larger than its parent in a binary heap.
pub open spec fn sift_up(order: Seq<usize>, images: Seq<ImageModel>, pos: int) -> Seq<usize>
    decreases pos,
{
    if pos <= 0 || pos >= order.len() {
        order
    } else {
        let parent = (pos - 1) / 2;
        if max_dimension(images[order[pos] as int]) <= max_dimension(images[order[parent] as int]) {
            order
        } else {
            sift_up(order.update(pos, order[parent]).update(parent, order[pos]), images, parent)
        }
    }
}

/// The packing order after the last image of `images` was added to a
/// builder whose packing order was `order`.
pub open spec fn push_order(order: Seq<usize>, images: Seq<ImageModel>) -> Seq<usize> {
    sift_up(order.push((images.len() - 1) as usize), images, order.len() as int)
}

/// Some entry of `order` is `k`.
pub open spec fn holds_entry(order: Seq<usize>, k: int) -> bool {
    exists|i: int| 0 <= i < order.len() && order[i] == k
}

/// `order` holds each position below `n` exactly once.
pub open spec fn is_arrangement(order: Seq<usize>, n: int) -> bool {
    &&& order.len() == n
    &&& forall|i: int| 0 <= i < n ==> #[trigger] order[i] < n
    &&& forall|i: int, j: int| 0 <= i < j < n ==> order[i] != order[j]
    &&& forall|k: int| 0 <= k < n ==> #[trigger] holds_entry(order, k)
}

/// `order` is a binary max-heap of `images` by longer side: no entry is
/// larger than its parent.
pub open spec fn is_max_heap(order: Seq<usize>, images: Seq<ImageModel>) -> bool {
    forall|c: int|
        0 < c < order.len() ==> max_dimension(images[order[(c - 1) / 2] as int]) >= max_dimension(
            #[trigger] images[order[c] as int],
        )
}

/// The packing tree after the first `k` images of `order` were packed:
/// the first one is the root, each next one is inserted; `None` once an
/// insertion finds no room.
pub open spec fn pack_prefix(images: Seq<ImageModel>, order: Seq<usize>, k: int) -> Option<
    AtlasNode,
>
    decreases k,
{
    if k <= 0 {
        None
    } else if k == 1 {
        let p = order[0];
        Some(root_node(p, images[p as int].width, images[p as int].height))
    } else {
        match pack_prefix(images, order, k - 1) {
            Some(t) => {
                let p = order[k - 1];
                insert(t, p, images[p as int].width, images[p as int].height)
            },
            None => None,
        }
    }
}

/// The packing tree of all images of `order`.
pub open spec fn pack(images: Seq<ImageModel>, order: Seq<usize>) -> Option<AtlasNode> {
    pack_prefix(images, order, order.len() as int)
}

/// Whether packing `images` in `order` succeeds: there are no images, or
/// every insertion found room and the atlas's byte count fits in `usize`.
pub open spec fn packs(images: Seq<ImageModel>, order: Seq<usize>) -> bool {
    ||| order.len() == 0
    ||| {
        &&& pack(images, order) is Some
        &&& rgba_len(
            pack(images, order)->0.bounds.w as int,
            pack(images, order)->0.bounds.h as int,
        ) <= usize::MAX
    }
}

/// `init` after, for each leaf (position, x, y) in turn, the entry of that
/// image (position plus one) was set to its rectangle in the atlas.
pub open spec fn placed_bounds(
    images: Seq<ImageModel>,
    spots: Seq<(usize, u32, u32)>,
    init: Seq<PixelBounds>,
) -> Seq<PixelBounds>
    decreases spots.len(),
{
    if spots.len() == 0 {
        init
    } else {
        let (p, x, y) = spots.last();
        placed_bounds(images, spots.drop_last(), init).update(
            p + 1,
            PixelBounds { x, y, w: images[p as int].width, h: images[p as int].height },
        )
    }
}

/// The bytes of an atlas `width` pixels wide after each image of `spots`
/// was copied in turn to its place.
pub open spec fn painted(
    images: Seq<ImageModel>,
    spots: Seq<(usize, u32, u32)>,
    width: int,
    init: Seq<u8>,
) -> Seq<u8>
    decreases spots.len(),
{
    if spots.len() == 0 {
        init
    } else {
        let (p, x, y) = spots.last();
        blit(
            painted(images, spots.drop_last(), width, init),
            width,
            images[p as int].data,
            images[p as int].width as int,
            images[p as int].height as int,
            x as int,
            y as int,
            4,
        )
    }
}

/// What an image atlas is: the packed image, and the rectangle of each
/// image in it (entry 0 is the whole atlas; entry `i` the `i`-th image added).
pub ghost struct AtlasModel {
    pub image: ImageModel,
    pub bounds: Seq<PixelBounds>,
}

/// The atlas built from `images` packed in `order`. With no images it is a
/// single transparent black pixel.
pub open spec fn atlas_of(images: Seq<ImageModel>, order: Seq<usize>) -> AtlasModel {
    if order.len() == 0 {
        AtlasModel {
            image: ImageModel { width: 1, height: 1, data: seq![0u8, 0u8, 0u8, 0u8] },
            bounds: seq![PixelBounds { x: 0, y: 0, w: 1, h: 1 }],
        }
    } else {
        let t = pack(images, order)->0;
        let w = t.bounds.w;
        let h = t.bounds.h;
        AtlasModel {
            image: ImageModel {
                width: w,
                height: h,
                data: painted(
                    images,
                    leaves(t),
                    w as int,
                    Seq::new(rgba_len(w as int, h as int) as nat, |i: int| 0u8),
                ),
            },
            bounds: placed_bounds(
                images,
                leaves(t),
                Seq::new(
                    (order.len() + 1) as nat,
                    |i: int|
                        if i == 0 {
                            PixelBounds { x: 0, y: 0, w, h }
                        } else {
                            PixelBounds { x: 0, y: 0, w: 0, h: 0 }
                        },
                ),
            ),
        }
    }
}

/// Once packing fails it stays failed.
pub proof fn lemma_pack_prefix_fails_on(images: Seq<ImageModel>, order: Seq<usize>, i: int, k: int)
    requires
        1 <= i <= k,
        pack_prefix(images, order, i) is None,
    ensures
        pack_prefix(images, order, k) is None,
    decreases k - i,
{
    if k > i {
        lemma_pack_prefix_fails_on(images, order, i, k - 1);
    }
}

/// Where a leaf of the tree lies: its image is one of `images` and lies
/// within `w` x `h` pixels from the origin.
pub open spec fn spot_inside(spot: (usize, u32, u32), images: Seq<ImageModel>, w: int, h: int) -> bool {
    &&& spot.0 < images.len()
    &&& spot.1 + images[spot.0 as int].width <= w
    &&& spot.2 + images[spot.0 as int].height <= h
}

/// Every leaf of a tree that lies within `w` x `h` pixels, and whose leaves
/// fit their nodes, lies within `w` x `h` pixels.
pub proof fn lemma_leaves_inside(t: AtlasNode, images: Seq<ImageModel>, w: int, h: int)
    requires
        within(t, w, h),
        leaves_fit(t, images),
    ensures
        forall|j: int| 0 <= j < leaves(t).len() ==> spot_inside(#[trigger] leaves(t)[j], images, w, h),
    decreases t,
{
    if let Some(pair) = t.children {
        lemma_leaves_inside(pair.0, images, w, h);
        lemma_leaves_inside(pair.1, images, w, h);
    }
    let own = match t.state {
        crate::graphics::atlas_node::AtlasNodeState::UsedLeaf(pos) => seq![(pos, t.bounds.x, t.bounds.y)],
        _ => Seq::empty(),
    };
    let below = if t.state.spec_is_used() {
        match t.children {
            Some(pair) => leaves(pair.1) + leaves(pair.0),
            None => Seq::empty(),
        }
    } else {
        Seq::empty()
    };
    assert(leaves(t) == own + below);
    assert forall|j: int| 0 <= j < leaves(t).len() implies spot_inside(
        #[trigger] leaves(t)[j],
        images,
        w,
        h,
    ) by {
        if j < own.len() {
            assert(leaves(t)[j] == own[j]);
        } else {
            assert(leaves(t)[j] == below[j - own.len()]);
            if let Some(pair) = t.children {
                let k = j - own.len();
                if k < leaves(pair.1).len() {
                    assert(below[k] == leaves(pair.1)[k]);
                } else {
                    assert(below[k] == leaves(pair.0)[k - leaves(pair.1).len()]);
                }
            }
        }
    }
}

/// Packing keeps the root at the origin, the tree within the root and every
/// leaf fitting.
pub proof fn lemma_pack_prefix_shape(images: Seq<ImageModel>, order: Seq<usize>, k: int)
    requires
        1 <= k <= order.len(),
        forall|i: int| 0 <= i < order.len() ==> #[trigger] order[i] < images.len(),
        pack_prefix(images, order, k) is Some,
    ensures
        ({
            let t = pack_prefix(images, order, k)->0;
            &&& t.bounds.x == 0
            &&& t.bounds.y == 0
            &&& within(t, t.bounds.w as int, t.bounds.h as int)
            &&& leaves_fit(t, images)
        }),
    decreases k,
{
    if k > 1 {
        lemma_pack_prefix_shape(images, order, k - 1);
        let t = pack_prefix(images, order, k - 1)->0;
        let p = order[k - 1];
        let w = images[p as int].width;
        let h = images[p as int].height;
        if place(t, p, w, h) is Some {
            lemma_place_keeps(t, p, images, t.bounds.w as int, t.bounds.h as int);
        } else {
            lemma_grow_keeps(t, images, w, h);
            let g = grow(t, w, h)->0;
            lemma_place_keeps(g, p, images, g.bounds.w as int, g.bounds.h as int);
        }
    }
}

/// Some spot of `spots` is of the image at position `p`.
pub open spec fn spots_hold(spots: Seq<(usize, u32, u32)>, p: usize) -> bool {
    exists|j: int| 0 <= j < spots.len() && (#[trigger] spots[j]).0 == p
}

/// Every image packed so far is a leaf of the tree.
pub proof fn lemma_pack_prefix_holds_all(images: Seq<ImageModel>, order: Seq<usize>, k: int)
    requires
        1 <= k <= order.len(),
        pack_prefix(images, order, k) is Some,
    ensures
        forall|m: int|
            0 <= m < k ==> spots_hold(leaves(pack_prefix(images, order, k)->0), #[trigger] order[m]),
    decreases k,
{
    let t = pack_prefix(images, order, k)->0;
    if k == 1 {
        assert(leaves(t)[0].0 == order[0]);
    } else {
        lemma_pack_prefix_holds_all(images, order, k - 1);
        let prev = pack_prefix(images, order, k - 1)->0;
        let p = order[k - 1];
        let w = images[p as int].width;
        let h = images[p as int].height;
        let mid = if place(prev, p, w, h) is Some {
            prev
        } else {
            lemma_grow_leaves(prev, w, h);
            grow(prev, w, h)->0
        };
        assert(forall|s: (usize, u32, u32)| leaves(prev).contains(s) ==> leaves(mid).contains(s));
        lemma_place_leaves(mid, p, w, h);
        assert forall|m: int| 0 <= m < k implies spots_hold(leaves(t), #[trigger] order[m]) by {
            if m < k - 1 {
                assert(spots_hold(leaves(prev), order[m]));
                let j0 = choose|j: int| 0 <= j < leaves(prev).len() && (#[trigger] leaves(prev)[j]).0 == order[m];
                let s = leaves(prev)[j0];
                assert(leaves(prev).contains(s));
                assert(leaves(t).contains(s));
                let j1 = choose|j: int| 0 <= j < leaves(t).len() && leaves(t)[j] == s;
                assert(leaves(t)[j1].0 == order[m]);
            }
        }
    }
}

/// Entry 0 is never set; an image's entry, once one of its leaves was
/// applied, holds one of its leaves.
pub proof fn lemma_placed_bounds(
    images: Seq<ImageModel>,
    spots: Seq<(usize, u32, u32)>,
    init: Seq<PixelBounds>,
    p: usize,
)
    requires
        forall|j: int| 0 <= j < spots.len() ==> #[trigger] spots[j].0 + 1 < init.len(),
    ensures
        placed_bounds(images, spots, init).len() == init.len(),
        placed_bounds(images, spots, init)[0] == init[0],
        spots_hold(spots, p) ==> exists|j: int|
            0 <= j < spots.len() && spots[j].0 == p && #[trigger] placed_bounds(images, spots, init)[p
                + 1] == (PixelBounds {
                x: spots[j].1,
                y: spots[j].2,
                w: images[p as int].width,
                h: images[p as int].height,
            }),
    decreases spots.len(),
{
    if spots.len() > 0 {
        let rest = spots.drop_last();
        lemma_placed_bounds(images, rest, init, p);
        let last = spots.last();
        let result = placed_bounds(images, spots, init);
        if spots_hold(spots, p) {
            if last.0 == p {
                assert(result[p + 1] == (PixelBounds {
                    x: spots[spots.len() - 1].1,
                    y: spots[spots.len() - 1].2,
                    w: images[p as int].width,
                    h: images[p as int].height,
                }));
            } else {
                let j0 = choose|j: int| 0 <= j < spots.len() && (#[trigger] spots[j]).0 == p;
                assert(rest[j0].0 == p);
                assert(spots_hold(rest, p));
                let j1 = choose|j: int|
                    0 <= j < rest.len() && rest[j].0 == p && #[trigger] placed_bounds(images, rest, init)[p
                        + 1] == (PixelBounds {
                        x: rest[j].1,
                        y: rest[j].2,
                        w: images[p as int].width,
                        h: images[p as int].height,
                    });
                assert(spots[j1] == rest[j1]);
                assert(result[p + 1] == placed_bounds(images, rest, init)[p + 1]);
            }
        }
    }
}

/// Layout of a built atlas: entry 0 of its rectangles is the whole atlas,
/// and the entry of each image (its index, one more than its position) has
/// the image's size and lies within the atlas.
#[verifier::spinoff_prover]
pub proof fn lemma_atlas_layout(images: Seq<ImageModel>, order: Seq<usize>)
    requires
        is_arrangement(order, images.len() as int),
        packs(images, order),
    ensures
        ({
            let a = atlas_of(images, order);
            &&& a.bounds.len() == images.len() + 1
            &&& a.bounds[0] == (PixelBounds { x: 0, y: 0, w: a.image.width, h: a.image.height })
            &&& forall|i: int|
                0 <= i < images.len() ==> {
                    let b = #[trigger] a.bounds[i + 1];
                    &&& b.w == images[i].width
                    &&& b.h == images[i].height
                    &&& b.x + b.w <= a.image.width
                    &&& b.y + b.h <= a.image.height
                }
        }),
{
    let n = images.len() as int;
    if n > 0 {
        let t = pack(images, order)->0;
        let w = t.bounds.w;
        let h = t.bounds.h;
        lemma_pack_prefix_shape(images, order, n);
        lemma_leaves_inside(t, images, w as int, h as int);
        lemma_pack_prefix_holds_all(images, order, n);
        let init = Seq::new(
            (order.len() + 1) as nat,
            |i: int|
                if i == 0 {
                    PixelBounds { x: 0, y: 0, w, h }
                } else {
                    PixelBounds { x: 0, y: 0, w: 0, h: 0 }
                },
        );
        let spots = leaves(t);
        assert forall|j: int| 0 <= j < spots.len() implies #[trigger] spots[j].0 + 1 < init.len() by {
            assert(spot_inside(spots[j], images, w as int, h as int));
        }
        lemma_placed_bounds(images, spots, init, 0);
        let a = atlas_of(images, order);
        assert forall|i: int| 0 <= i < n implies {
            let b = #[trigger] a.bounds[i + 1];
            &&& b.w == images[i].width
            &&& b.h == images[i].height
            &&& b.x + b.w <= a.image.width
            &&& b.y + b.h <= a.image.height
        } by {
            assert(holds_entry(order, i));
            let m = choose|m: int| 0 <= m < order.len() && order[m] == i;
            assert(spots_hold(spots, order[m]));
            lemma_placed_bounds(images, spots, init, i as usize);
            let j = choose|j: int|
                0 <= j < spots.len() && spots[j].0 == i && #[trigger] placed_bounds(images, spots, init)[i
                    + 1] == (PixelBounds {
                    x: spots[j].1,
                    y: spots[j].2,
                    w: images[i].width,
                    h: images[i].height,
                });
            assert(spot_inside(spots[j], images, w as int, h as int));
        }
    }
}

/// The image packed first, which becomes the atlas's root, has the longest
/// side: no image of a max-heap order is longer than its first.
pub proof fn lemma_first_packed_is_longest(order: Seq<usize>, images: Seq<ImageModel>, k: int)
    requires
        is_max_heap(order, images),
        0 <= k < order.len(),
    ensures
        max_dimension(images[order[0] as int]) >= max_dimension(images[order[k] as int]),
    decreases k,
{
    if k > 0 {
        let parent = (k - 1) / 2;
        assert(max_dimension(images[order[parent] as int]) >= max_dimension(images[order[k] as int]));
        lemma_first_packed_is_longest(order, images, parent);
    }
}

/// The heap property of a binary heap that holds except at `pos` still
/// holds, except at `pos`'s parent, after the entry at `pos`, larger than its
/// parent, was swapped with it.
proof fn lemma_sift_step(before: Seq<usize>, images: Seq<ImageModel>, pos: int, n: int)
    requires
        0 < pos < n,
        before.len() == n,
        forall|i: int| 0 <= i < n ==> #[trigger] before[i] < images.len(),
        max_dimension(images[before[pos] as int]) > max_dimension(images[before[(pos - 1) / 2] as int]),
        forall|c: int|
            0 < c < n && c != pos ==> max_dimension(images[before[(c - 1) / 2] as int])
                >= max_dimension(#[trigger] images[before[c] as int]),
        forall|c: int|
            0 < c < n && (c - 1) / 2 == pos && pos > 0 ==> max_dimension(
                images[before[(pos - 1) / 2] as int],
            ) >= max_dimension(#[trigger] images[before[c] as int]),
    ensures
        ({
            let parent = (pos - 1) / 2;
            let after = before.update(pos, before[parent]).update(parent, before[pos]);
            &&& forall|c: int|
                0 < c < n && c != parent ==> max_dimension(images[after[(c - 1) / 2] as int])
                    >= max_dimension(#[trigger] images[after[c] as int])
            &&& forall|c: int|
                0 < c < n && (c - 1) / 2 == parent && parent > 0 ==> max_dimension(
                    images[after[(parent - 1) / 2] as int],
                ) >= max_dimension(#[trigger] images[after[c] as int])
        }),
{
    let parent = (pos - 1) / 2;
    let after = before.update(pos, before[parent]).update(parent, before[pos]);
    assert forall|c: int| 0 < c < n && c != parent implies max_dimension(
        images[after[(c - 1) / 2] as int],
    ) >= max_dimension(#[trigger] images[after[c] as int]) by {
        if c == pos {
        } else if (c - 1) / 2 == pos {
            assert(max_dimension(images[before[(pos - 1) / 2] as int]) >= max_dimension(
                images[before[c] as int],
            ));
        } else {
            assert(max_dimension(images[before[(c - 1) / 2] as int]) >= max_dimension(
                images[before[c] as int],
            ));
        }
    }
    assert forall|c: int| 0 < c < n && (c - 1) / 2 == parent && parent > 0 implies max_dimension(
        images[after[(parent - 1) / 2] as int],
    ) >= max_dimension(#[trigger] images[after[c] as int]) by {
        assert(max_dimension(images[before[(parent - 1) / 2] as int]) >= max_dimension(
            images[before[parent] as int],
        ));
        if c != pos {
            assert(max_dimension(images[before[(c - 1) / 2] as int]) >= max_dimension(
                images[before[c] as int],
            ));
        }
    }
}

/// Builds an [ImageAtlas] from images added one by one.
pub struct ImageAtlasBuilder {
    /// The images, in the order they were added.
    images: Vec<Image>,
    /// Positions into `images`, as a binary max-heap by longer side: the
    /// order in which the images are packed.
    heap: Vec<usize>,
    /// Where each image's position sits in `heap`.
    slot_of: Ghost<Seq<int>>,
}

impl View for ImageAtlasBuilder {
    type V = Seq<ImageModel>;

    /// The images added so far; the `i`-th has index `i + 1`.
    closed spec fn view(&self) -> Seq<ImageModel> {
        self.images@.map_values(|img: Image| img@)
    }
}

impl ImageAtlasBuilder {
    /// The order in which `build` packs the images: positions into `self@`.
    pub closed spec fn packing_order(&self) -> Seq<usize> {
        self.heap@
    }

    /// The builder's internal consistency.
    pub closed spec fn wf(&self) -> bool {
        let n = self.images.len() as int;
        &&& self.heap@.len() == n
        &&& self.slot_of@.len() == n
        &&& forall|i: int|
            0 <= i < n ==> #[trigger] self.heap@[i] < n && self.slot_of@[self.heap@[i] as int] == i
        &&& forall|k: int|
            0 <= k < n ==> 0 <= #[trigger] self.slot_of@[k] < n && self.heap@[self.slot_of@[k]] == k
        &&& is_max_heap(self.heap@, self@)
    }

    /// The images are packed in a binary max-heap order by longer side that
    /// holds each image exactly once.
    pub proof fn lemma_packing_order(&self)
        requires
            self.wf(),
        ensures
            is_arrangement(self.packing_order(), self@.len() as int),
            is_max_heap(self.packing_order(), self@),
    {
        let n = self.images.len() as int;
        let order = self.heap@;
        assert forall|i: int, j: int| 0 <= i < j < n implies order[i] != order[j] by {
            assert(self.slot_of@[order[i] as int] == i);
            assert(self.slot_of@[order[j] as int] == j);
        }
        assert forall|k: int| 0 <= k < n implies #[trigger] holds_entry(order, k) by {
            let i = self.slot_of@[k];
            assert(order[i] == k);
        }
    }

    /// A builder holding no image.
    pub fn new() -> (b: Self)
        ensures
            b.wf(),
            b@ == Seq::<ImageModel>::empty(),
            b.packing_order() == Seq::<usize>::empty(),
    {
        let b = ImageAtlasBuilder { images: Vec::new(), heap: Vec::new(), slot_of: Ghost(Seq::empty()) };
        assert(b@ =~= Seq::<ImageModel>::empty());
        b
    }

    /// The longer side of the image at `pos`.
    fn max_dimension_at(&self, pos: usize) -> (d: u32)
        requires
            pos < self.images.len(),
        ensures
            d == max_dimension(self@[pos as int]),
    {
        let image = &self.images[pos];
        if image.width() >= image.height() {
            image.width()
        } else {
            image.height()
        }
    }

    /// Whether the heap entry at `pos` is larger than its parent's.
    fn rises(&self, pos: usize) -> (larger: bool)
        requires
            0 < pos < self.heap@.len(),
            forall|i: int| 0 <= i < self.heap@.len() ==> #[trigger] self.heap@[i] < self.images.len(),
        ensures
            larger == (max_dimension(self@[self.heap@[pos as int] as int]) > max_dimension(
                self@[self.heap@[(pos - 1) / 2] as int],
            )),
    {
        self.max_dimension_at(self.heap[pos]) > self.max_dimension_at(self.heap[(pos - 1) / 2])
    }

    /// Adds an image and returns its index: one more than the number of
    /// images added before it.
    #[verifier::spinoff_prover]
    #[verifier::rlimit(40)]
    pub fn add_image(&mut self, image: Image) -> (index: usize)
        requires
            old(self).wf(),
            old(self)@.len() < usize::MAX,
        ensures
            final(self).wf(),
            index == old(self)@.len() + 1,
            final(self)@ == old(self)@.push(image@),
            final(self).packing_order() == push_order(old(self).packing_order(), final(self)@),
    {
        let ghost old_view = self@;
        let ghost old_order = self.heap@;
        let index = self.images.len() + 1;
        let new_pos = self.images.len();
        self.images.push(image);
        self.heap.push(new_pos);
        proof {
            self.slot_of@ = self.slot_of@.push(new_pos as int);
            assert(self@ =~= old_view.push(image@));
        }
        let ghost images = self@;
        let ghost start = self.heap@;
        assert(start == old_order.push(new_pos));
        let n = self.heap.len();
        let mut pos = new_pos;
        while pos > 0 && self.rises(pos)
            invariant
                n == self.images.len(),
                n == new_pos + 1,
                self@ == images,
                images == old_view.push(image@),
                pos < n,
                self.heap@.len() == n,
                self.slot_of@.len() == n,
                forall|i: int|
                    0 <= i < n ==> #[trigger] self.heap@[i] < n && self.slot_of@[self.heap@[i] as int]
                        == i,
                forall|k: int|
                    0 <= k < n ==> 0 <= #[trigger] self.slot_of@[k] < n && self.heap@[self.slot_of@[k]]
                        == k,
                forall|c: int|
                    0 < c < n && c != pos ==> max_dimension(images[self.heap@[(c - 1) / 2] as int])
                        >= max_dimension(#[trigger] images[self.heap@[c] as int]),
                forall|c: int|
                    0 < c < n && (c - 1) / 2 == pos && pos > 0 ==> max_dimension(
                        images[self.heap@[(pos - 1) / 2] as int],
                    ) >= max_dimension(#[trigger] images[self.heap@[c] as int]),
                sift_up(self.heap@, images, pos as int) == sift_up(start, images, new_pos as int),
            decreases pos,
        {
            let parent = (pos - 1) / 2;
            let child_item = self.heap[pos];
            let parent_item = self.heap[parent];
            let ghost before = self.heap@;
            self.heap.set(pos, parent_item);
            self.heap.set(parent, child_item);
            proof {
                self.slot_of@ = self.slot_of@.update(child_item as int, parent as int).update(
                    parent_item as int,
                    pos as int,
                );
                assert(self.heap@ == before.update(pos as int, before[parent as int]).update(
                    parent as int,
                    before[pos as int],
                ));
                lemma_sift_step(before, images, pos as int, n as int);
            }
            pos = parent;
        }
        index
    }
}

impl ImageAtlasBuilder {
    /// Packs the images into one atlas, or returns `None` where packing
    /// fails (see `packs`).
    #[verifier::spinoff_prover]
    pub fn try_build(&self) -> (atlas: Option<ImageAtlas>)
        requires
            self.wf(),
        ensures
            atlas is Some <==> packs(self@, self.packing_order()),
            atlas matches Some(a) ==> a@ == atlas_of(self@, self.packing_order()),
    {
        let image_count = self.images.len();
        let ghost images = self@;
        let ghost order = self.heap@;
        if image_count == 0 {
            let data: Vec<u8> = vec![0u8; 4];
            assert(data@ =~= seq![0u8, 0u8, 0u8, 0u8]);
            let mut bounds: Vec<PixelBounds> = Vec::new();
            bounds.push(PixelBounds::new(0, 0, 1, 1));
            assert(bounds@ =~= seq![PixelBounds { x: 0, y: 0, w: 1, h: 1 }]);
            return Some(ImageAtlas { image: Image::new(1, 1, data), bounds });
        }
        proof {
            assert forall|i: int| 0 <= i < order.len() implies #[trigger] order[i] < images.len() by {
                assert(self.heap@[i] < self.images.len());
            }
        }
        let first = self.heap[0];
        let mut tree = AtlasNode::root(first, self.images[first].width(), self.images[first].height());
        let mut i: usize = 1;
        while i < image_count
            invariant
                image_count == self.images.len(),
                images == self@,
                order == self.heap@,
                order.len() == image_count,
                forall|k: int| 0 <= k < order.len() ==> #[trigger] order[k] < images.len(),
                1 <= i <= image_count,
                pack_prefix(images, order, i as int) == Some(tree),
            decreases image_count - i,
        {
            proof {
                lemma_pack_prefix_shape(images, order, i as int);
            }
            let p = self.heap[i];
            if !tree.insert(p, self.images[p].width(), self.images[p].height()) {
                proof {
                    assert(pack_prefix(images, order, i + 1) is None);
                    lemma_pack_prefix_fails_on(images, order, i + 1, order.len() as int);
                }
                return None;
            }
            i = i + 1;
        }
        proof {
            lemma_pack_prefix_shape(images, order, image_count as int);
        }
        let width = tree.bounds.w;
        let height = tree.bounds.h;
        let pixel_count = match (width as usize).checked_mul(height as usize) {
            Some(c) => c,
            None => {
                proof {
                    assert(rgba_len(width as int, height as int) > usize::MAX) by (nonlinear_arith)
                        requires
                            (width as int) * (height as int) > usize::MAX,
                    ;
                }
                return None;
            },
        };
        let byte_count = match pixel_count.checked_mul(4) {
            Some(c) => c,
            None => return None,
        };
        let mut data: Vec<u8> = vec![0u8; byte_count];
        proof {
            lemma_leaves_inside(tree, images, width as int, height as int);
            assert(data@ =~= Seq::new(rgba_len(width as int, height as int) as nat, |k: int| 0u8));
        }
        let ghost blank = data@;
        let mut spots: Vec<(usize, u32, u32)> = Vec::new();
        tree.for_each_leaf(&mut spots);
        assert(spots@ =~= leaves(tree));
        let mut bounds: Vec<PixelBounds> = Vec::new();
        bounds.push(PixelBounds::new(0, 0, width, height));
        let mut k: usize = 0;
        while k < image_count
            invariant
                k <= image_count,
                bounds@.len() == k + 1,
                bounds@[0] == (PixelBounds { x: 0, y: 0, w: width, h: height }),
                forall|j: int| 1 <= j <= k ==> #[trigger] bounds@[j] == (PixelBounds { x: 0, y: 0, w: 0, h: 0 }),
            decreases image_count - k,
        {
            bounds.push(PixelBounds::new(0, 0, 0, 0));
            k = k + 1;
        }
        let ghost init_bounds = bounds@;
        assert(init_bounds =~= Seq::new(
            (order.len() + 1) as nat,
            |i: int|
                if i == 0 {
                    PixelBounds { x: 0, y: 0, w: width, h: height }
                } else {
                    PixelBounds { x: 0, y: 0, w: 0, h: 0 }
                },
        ));
        let mut j: usize = 0;
        while j < spots.len()
            invariant
                image_count == self.images.len(),
                images == self@,
                spots@ == leaves(tree),
                forall|m: int| 0 <= m < spots@.len() ==> spot_inside(#[trigger] spots@[m], images, width as int, height as int),
                data@.len() == rgba_len(width as int, height as int),
                bounds@.len() == image_count + 1,
                j <= spots@.len(),
                data@ == painted(images, spots@.take(j as int), width as int, blank),
                bounds@ == placed_bounds(images, spots@.take(j as int), init_bounds),
            decreases spots@.len() - j,
        {
            let (p, x, y) = spots[j];
            assert(spot_inside(spots@[j as int], images, width as int, height as int));
            let image = &self.images[p];
            blit_into(&mut data, width, height, image.data(), image.width(), image.height(), x, y, 4);
            bounds.set(p + 1, PixelBounds::new(x, y, image.width(), image.height()));
            assert(spots@.take(j + 1).drop_last() =~= spots@.take(j as int));
            j = j + 1;
        }
        assert(spots@.take(spots@.len() as int) =~= spots@);
        proof {
            lemma_placed_bounds(images, spots@, init_bounds, 0);
        }
        Some(ImageAtlas { image: Image::new(width, height, data), bounds })
    }

    /// Packs the images into one atlas. Packing must succeed (see `packs`);
    /// `try_build` tells whether it does.
    pub fn build(&self) -> (atlas: ImageAtlas)
        requires
            self.wf(),
            packs(self@, self.packing_order()),
        ensures
            atlas@ == atlas_of(self@, self.packing_order()),
    {
        match self.try_build() {
            Some(atlas) => atlas,
            None => {
                assert(false);
                ImageAtlas::empty()
            },
        }
    }
}

/// Images packed into one image, with the rectangle of each.
#[derive(Debug)]
pub struct ImageAtlas {
    image: Image,
    bounds: Vec<PixelBounds>,
}

impl View for ImageAtlas {
    type V = AtlasModel;

    closed spec fn view(&self) -> AtlasModel {
        AtlasModel { image: self.image@, bounds: self.bounds@ }
    }
}

impl Clone for ImageAtlas {
    fn clone(&self) -> (copy: Self)
        ensures
            copy@ == self@,
    {
        proof {
            use_type_invariant(self);
        }
        let bounds = self.bounds.clone();
        assert(bounds@ =~= self.bounds@);
        ImageAtlas { image: self.image.clone(), bounds }
    }
}

impl ImageAtlas {
    /// Entry 0 of an atlas's rectangles is the whole atlas.
    #[verifier::type_invariant]
    closed spec fn first_bounds_whole(self) -> bool {
        &&& self.bounds@.len() >= 1
        &&& self.bounds@[0] == (PixelBounds { x: 0, y: 0, w: self.image@.width, h: self.image@.height })
    }

    /// The atlas of no image.
    fn empty() -> (atlas: Self)
        ensures
            atlas@ == atlas_of(Seq::empty(), Seq::empty()),
    {
        let data: Vec<u8> = vec![0u8; 4];
        assert(data@ =~= seq![0u8, 0u8, 0u8, 0u8]);
        let mut bounds: Vec<PixelBounds> = Vec::new();
        bounds.push(PixelBounds::new(0, 0, 1, 1));
        assert(bounds@ =~= seq![PixelBounds { x: 0, y: 0, w: 1, h: 1 }]);
        ImageAtlas { image: Image::new(1, 1, data), bounds }
    }

    /// Returns a builder holding no image.
    #[inline]
    pub fn builder() -> (b: ImageAtlasBuilder)
        ensures
            b.wf(),
            b@ == Seq::<ImageModel>::empty(),
            b.packing_order() == Seq::<usize>::empty(),
    {
        ImageAtlasBuilder::new()
    }

    /// Returns the rectangle of the image with the given index (0 is the
    /// whole atlas), or `None` past the last one.
    #[inline]
    pub fn get_bounds(&self, index: usize) -> (b: Option<&PixelBounds>)
        ensures
            b is Some <==> index < self@.bounds.len(),
            b matches Some(r) ==> *r == self@.bounds[index as int],
    {
        if index < self.bounds.len() {
            Some(&self.bounds[index])
        } else {
            None
        }
    }

    /// Returns the packed image.
    #[inline]
    pub fn image(&self) -> (i: &Image)
        ensures
            i@ == self@.image,
    {
        &self.image
    }

    /// Returns the width of the packed image.
    #[inline]
    pub fn width(&self) -> (w: u32)
        ensures
            w == self@.image.width,
            w == self@.bounds[0].w,
    {
        proof {
            use_type_invariant(self);
        }
        self.image.width()
    }

    /// Returns the height of the packed image.
    #[inline]
    pub fn height(&self) -> (h: u32)
        ensures
            h == self@.image.height,
            h == self@.bounds[0].h,
    {
        proof {
            use_type_invariant(self);
        }
        self.image.height()
    }

    /// Returns the rectangles of all images (0 is the whole atlas).
    #[inline]
    pub fn bounds(&self) -> (b: &[PixelBounds])
        ensures
            b@ == self@.bounds,
            b@.len() >= 1,
            b@[0] == (PixelBounds { x: 0, y: 0, w: self@.image.width, h: self@.image.height }),
    {
        proof {
            use_type_invariant(self);
        }
        self.bounds.as_slice()
    }
}

} // verus!
