//! How large a built atlas is.

use vstd::prelude::*;
use crate::graphics::atlas_node::{grow, insert, place};
use crate::graphics::image::ImageModel;
use crate::graphics::image_atlas::{
    atlas_of, holds_entry, is_arrangement, lemma_atlas_layout, pack, pack_prefix, packs,
    ImageAtlasBuilder,
};
use crate::graphics::pixel_bounds::PixelBounds;

verus! {

/// An image's height when `vertical`, else its width.
pub open spec fn side_of(m: ImageModel, vertical: bool) -> int {
    if vertical {
        m.height as int
    } else {
        m.width as int
    }
}

/// The sum of the heights (when `vertical`) or widths of the images at the
/// positions `order`.
pub open spec fn sum_sides(images: Seq<ImageModel>, order: Seq<usize>, vertical: bool) -> int
    decreases order.len(),
{
    if order.len() == 0 {
        0
    } else {
        sum_sides(images, order.drop_last(), vertical) + side_of(images[order.last() as int], vertical)
    }
}

/// The positions `0..n`, in order.
pub open spec fn all_positions(n: nat) -> Seq<usize> {
    Seq::new(n, |i: int| i as usize)
}

/// Taking out the entry at `m` takes its side out of the sum.
proof fn lemma_sum_sides_remove(
    images: Seq<ImageModel>,
    order: Seq<usize>,
    vertical: bool,
    m: int,
)
    requires
        0 <= m < order.len(),
    ensures
        sum_sides(images, order, vertical) == sum_sides(images, order.remove(m), vertical) + side_of(
            images[order[m] as int],
            vertical,
        ),
    decreases order.len(),
{
    if m == order.len() - 1 {
        assert(order.remove(m) =~= order.drop_last());
    } else {
        let rest = order.drop_last();
        lemma_sum_sides_remove(images, rest, vertical, m);
        assert(order.remove(m).drop_last() =~= rest.remove(m));
        assert(order.remove(m).last() == order.last());
    }
}

/// The sum over an arrangement of `0..n` is the sum over `0..n` in order.
proof fn lemma_sum_sides_arrangement(
    images: Seq<ImageModel>,
    order: Seq<usize>,
    vertical: bool,
    n: int,
)
    requires
        0 <= n,
        is_arrangement(order, n),
    ensures
        sum_sides(images, order, vertical) == sum_sides(images, all_positions(n as nat), vertical),
    decreases n,
{
    if n > 0 {
        assert(holds_entry(order, n - 1));
        let m = choose|m: int| 0 <= m < order.len() && order[m] == n - 1;
        let rest = order.remove(m);
        assert forall|i: int| 0 <= i < n - 1 implies #[trigger] rest[i] < n - 1 by {
            if i < m {
                assert(rest[i] == order[i]);
                assert(order[i] != order[m]);
            } else {
                assert(rest[i] == order[i + 1]);
                assert(order[i + 1] != order[m]);
            }
            assert(order[if i < m { i } else { i + 1 }] < n);
        }
        assert forall|i: int, j: int| 0 <= i < j < n - 1 implies rest[i] != rest[j] by {
            let i0 = if i < m { i } else { i + 1 };
            let j0 = if j < m { j } else { j + 1 };
            assert(rest[i] == order[i0]);
            assert(rest[j] == order[j0]);
        }
        assert forall|k: int| 0 <= k < n - 1 implies #[trigger] holds_entry(rest, k) by {
            assert(holds_entry(order, k));
            let j = choose|j: int| 0 <= j < order.len() && order[j] == k;
            assert(j != m);
            if j < m {
                assert(rest[j] == k);
            } else {
                assert(rest[j - 1] == k);
            }
        }
        lemma_sum_sides_remove(images, order, vertical, m);
        lemma_sum_sides_arrangement(images, rest, vertical, n - 1);
        assert(all_positions(n as nat).drop_last() =~= all_positions((n - 1) as nat));
    }
}

/// The packing tree of the first `k` images of `order` is at most as wide
/// as their widths together, and at most as tall as their heights together.
proof fn lemma_pack_prefix_size(images: Seq<ImageModel>, order: Seq<usize>, k: int)
    requires
        1 <= k <= order.len(),
        pack_prefix(images, order, k) is Some,
    ensures
        pack_prefix(images, order, k)->0.bounds.w <= sum_sides(images, order.take(k), false),
        pack_prefix(images, order, k)->0.bounds.h <= sum_sides(images, order.take(k), true),
    decreases k,
{
    assert(order.take(k).drop_last() =~= order.take(k - 1));
    assert(order.take(k).last() == order[k - 1]);
    if k == 1 {
        assert(order.take(0) =~= Seq::<usize>::empty());
        assert(sum_sides(images, order.take(0), false) == 0);
        assert(sum_sides(images, order.take(0), true) == 0);
        assert(sum_sides(images, order.take(1), false) == images[order[0] as int].width);
        assert(sum_sides(images, order.take(1), true) == images[order[0] as int].height);
    } else {
        lemma_pack_prefix_size(images, order, k - 1);
        let t = pack_prefix(images, order, k - 1)->0;
        let p = order[k - 1];
        let w = images[p as int].width;
        let h = images[p as int].height;
        assert(sum_sides(images, order.take(k), false) == sum_sides(images, order.take(k - 1), false) + w);
        assert(sum_sides(images, order.take(k), true) == sum_sides(images, order.take(k - 1), true) + h);
        if place(t, p, w, h) is None {
            let g = grow(t, w, h)->0;
            assert(place(g, p, w, h)->0.bounds == g.bounds);
            assert(g.bounds.w <= t.bounds.w + w);
            assert(g.bounds.h <= t.bounds.h + h);
        } else {
            assert(place(t, p, w, h)->0.bounds == t.bounds);
        }
        assert(insert(t, p, w, h) == pack_prefix(images, order, k));
    }
}

/// Size of a built atlas: it is at least as wide and as tall as every image
/// in it, and at most as wide as all their widths together and as tall as
/// all their heights together.
pub proof fn lemma_atlas_size(images: Seq<ImageModel>, order: Seq<usize>)
    requires
        images.len() >= 1,
        is_arrangement(order, images.len() as int),
        packs(images, order),
    ensures
        ({
            let a = atlas_of(images, order);
            &&& forall|i: int|
                0 <= i < images.len() ==> #[trigger] images[i].width <= a.image.width && images[i].height
                    <= a.image.height
            &&& a.image.width <= sum_sides(images, all_positions(images.len()), false)
            &&& a.image.height <= sum_sides(images, all_positions(images.len()), true)
        }),
{
    let n = images.len() as int;
    let a = atlas_of(images, order);
    lemma_atlas_layout(images, order);
    assert forall|i: int| 0 <= i < n implies #[trigger] images[i].width <= a.image.width && images[i].height
        <= a.image.height by {
        let b = a.bounds[i + 1];
    }
    lemma_pack_prefix_size(images, order, n);
    assert(order.take(n) =~= order);
    lemma_sum_sides_arrangement(images, order, false, n);
    lemma_sum_sides_arrangement(images, order, true, n);
    assert(pack(images, order) == pack_prefix(images, order, n));
}

/// What building gives for a builder whose packing succeeds (see `packs`):
/// the whole atlas's rectangle first, then one rectangle per image, the
/// `k`-th image added (index `k`, as `add_image` returned it) having a
/// rectangle of its size inside the atlas. With no image the atlas is one
/// pixel; with images it is at most as wide as all their widths together
/// and at most as tall as all their heights together.
pub proof fn lemma_built_atlas(builder: &ImageAtlasBuilder)
    requires
        builder.wf(),
        packs(builder@, builder.packing_order()),
    ensures
        ({
            let n = builder@.len();
            let a = atlas_of(builder@, builder.packing_order());
            &&& a.bounds.len() == n + 1
            &&& a.bounds[0] == (PixelBounds { x: 0, y: 0, w: a.image.width, h: a.image.height })
            &&& forall|k: int|
                1 <= k <= n ==> {
                    let b = #[trigger] a.bounds[k];
                    &&& b.w == builder@[k - 1].width
                    &&& b.h == builder@[k - 1].height
                    &&& b.x + b.w <= a.image.width
                    &&& b.y + b.h <= a.image.height
                }
            &&& n == 0 ==> a.image.width == 1 && a.image.height == 1
            &&& n >= 1 ==> a.image.width <= sum_sides(builder@, all_positions(n), false)
                && a.image.height <= sum_sides(builder@, all_positions(n), true)
        }),
{
    let images = builder@;
    let order = builder.packing_order();
    let n = images.len() as int;
    builder.lemma_packing_order();
    if n > 0 {
        lemma_atlas_layout(images, order);
        lemma_atlas_size(images, order);
        let a = atlas_of(images, order);
        assert forall|k: int| 1 <= k <= n implies {
            let b = #[trigger] a.bounds[k];
            &&& b.w == images[k - 1].width
            &&& b.h == images[k - 1].height
            &&& b.x + b.w <= a.image.width
            &&& b.y + b.h <= a.image.height
        } by {
            assert(a.bounds[(k - 1) + 1] == a.bounds[k]);
        }
    }
}

} // verus!
