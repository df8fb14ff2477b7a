//! Reading an image back out of a built atlas.

use vstd::prelude::*;
use crate::graphics::atlas_node::{
    grow, insert, lemma_grow_within, lemma_growth_is_outside, lemma_within_mono, leaves, place, within, with_sprite, AtlasNode, AtlasNodeState,
};
use crate::graphics::image::{lemma_blit_at, lemma_row_end, rgba_len, ImageModel};
use crate::graphics::image_atlas::{
    atlas_of, holds_entry, is_arrangement, lemma_atlas_layout, lemma_leaves_inside, lemma_pack_prefix_holds_all,
    lemma_pack_prefix_shape, lemma_placed_bounds, pack, pack_prefix, packs, painted, placed_bounds, spot_inside, spots_hold,
};
use crate::graphics::pixel_bounds::PixelBounds;

verus! {

/// The order in which building copies the images into the atlas, as
/// (position, x, y): the leaves of the packing tree.
pub open spec fn paint_order(images: Seq<ImageModel>, order: Seq<usize>) -> Seq<(usize, u32, u32)> {
    leaves(pack(images, order)->0)
}

/// Whether the image of `spot` (position, x, y), copied to its place,
/// covers pixel (`px`, `py`).
pub open spec fn spot_covers(images: Seq<ImageModel>, spot: (usize, u32, u32), px: int, py: int) -> bool {
    &&& spot.1 <= px < spot.1 + images[spot.0 as int].width
    &&& spot.2 <= py < spot.2 + images[spot.0 as int].height
}

/// The index of the last spot of the image at position `p` in `spots`, or
/// -1 when there is none.
pub open spec fn last_spot_of(spots: Seq<(usize, u32, u32)>, p: usize) -> int
    decreases spots.len(),
{
    if spots.len() == 0 {
        -1
    } else if spots.last().0 == p {
        spots.len() - 1
    } else {
        last_spot_of(spots.drop_last(), p)
    }
}

/// Whether an image copied into the atlas after the image at position `i`
/// covers pixel (`px`, `py`), hiding what `i` left there.
pub open spec fn copied_over(images: Seq<ImageModel>, order: Seq<usize>, i: usize, px: int, py: int) -> bool {
    let spots = paint_order(images, order);
    exists|j: int|
        last_spot_of(spots, i) < j < spots.len() && spot_covers(images, #[trigger] spots[j], px, py)
}

/// The last spot of `p` is a spot of `p`, and no later spot is.
proof fn lemma_last_spot_of(spots: Seq<(usize, u32, u32)>, p: usize)
    ensures
        -1 <= last_spot_of(spots, p) < spots.len(),
        spots_hold(spots, p) ==> last_spot_of(spots, p) >= 0,
        last_spot_of(spots, p) >= 0 ==> spots[last_spot_of(spots, p)].0 == p,
        forall|j: int| last_spot_of(spots, p) < j < spots.len() ==> (#[trigger] spots[j]).0 != p,
    decreases spots.len(),
{
    if spots.len() > 0 {
        let rest = spots.drop_last();
        lemma_last_spot_of(rest, p);
        if spots.last().0 != p {
            assert forall|j: int| last_spot_of(spots, p) < j < spots.len() implies (#[trigger] spots[j]).0
                != p by {
                if j < spots.len() - 1 {
                    assert(spots[j] == rest[j]);
                }
            }
            if spots_hold(spots, p) {
                let j = choose|j: int| 0 <= j < spots.len() && (#[trigger] spots[j]).0 == p;
                assert(rest[j] == spots[j]);
                assert(spots_hold(rest, p));
            }
            if last_spot_of(spots, p) >= 0 {
                assert(spots[last_spot_of(spots, p)] == rest[last_spot_of(rest, p)]);
            }
        }
    }
}

/// An image's entry in the atlas's rectangles is set by its last spot.
proof fn lemma_placed_by_last_spot(
    images: Seq<ImageModel>,
    spots: Seq<(usize, u32, u32)>,
    init: Seq<PixelBounds>,
    p: usize,
)
    requires
        forall|j: int| 0 <= j < spots.len() ==> #[trigger] spots[j].0 + 1 < init.len(),
        last_spot_of(spots, p) >= 0,
    ensures
        ({
            let s = spots[last_spot_of(spots, p)];
            placed_bounds(images, spots, init)[p + 1] == (PixelBounds {
                x: s.1,
                y: s.2,
                w: images[p as int].width,
                h: images[p as int].height,
            })
        }),
    decreases spots.len(),
{
    let rest = spots.drop_last();
    assert forall|j: int| 0 <= j < rest.len() implies #[trigger] rest[j].0 + 1 < init.len() by {
        assert(rest[j] == spots[j]);
    }
    lemma_placed_bounds(images, rest, init, p);
    lemma_last_spot_of(rest, p);
    if spots.last().0 != p {
        lemma_placed_by_last_spot(images, rest, init, p);
        assert(spots[last_spot_of(spots, p)] == rest[last_spot_of(rest, p)]);
    } else {
        assert(last_spot_of(spots, p) == spots.len() - 1);
        assert(spots[spots.len() - 1].0 + 1 < init.len());
    }
}

/// Painting keeps the length of the atlas's bytes.
proof fn lemma_painted_len(images: Seq<ImageModel>, spots: Seq<(usize, u32, u32)>, width: int, init: Seq<u8>)
    ensures
        painted(images, spots, width, init).len() == init.len(),
    decreases spots.len(),
{
    if spots.len() > 0 {
        lemma_painted_len(images, spots.drop_last(), width, init);
    }
}

/// A byte of a pixel that no spot from `from` on covers keeps the value it
/// had before those spots were painted.
proof fn lemma_painted_untouched(
    images: Seq<ImageModel>,
    spots: Seq<(usize, u32, u32)>,
    width: int,
    init: Seq<u8>,
    from: int,
    px: int,
    py: int,
    c: int,
)
    requires
        width > 0,
        0 <= from <= spots.len(),
        0 <= px < width,
        0 <= py,
        0 <= c < 4,
        py * (4 * width) + 4 * px + c < init.len(),
        forall|j: int| from <= j < spots.len() ==> !spot_covers(images, #[trigger] spots[j], px, py),
    ensures
        painted(images, spots, width, init)[py * (4 * width) + 4 * px + c] == painted(
            images,
            spots.take(from),
            width,
            init,
        )[py * (4 * width) + 4 * px + c],
    decreases spots.len(),
{
    if spots.len() == from {
        assert(spots.take(from) =~= spots);
    } else {
        let rest = spots.drop_last();
        assert forall|j: int| from <= j < rest.len() implies !spot_covers(images, #[trigger] rest[j], px, py) by {
            assert(rest[j] == spots[j]);
        }
        lemma_painted_untouched(images, rest, width, init, from, px, py, c);
        assert(rest.take(from) =~= spots.take(from));
        let (p, x, y) = spots.last();
        assert(!spot_covers(images, spots[spots.len() - 1], px, py));
        let before = painted(images, rest, width, init);
        lemma_painted_len(images, rest, width, init);
        lemma_blit_at(
            before,
            width,
            images[p as int].data,
            images[p as int].width as int,
            images[p as int].height as int,
            x as int,
            y as int,
            4,
            py,
            4 * px + c,
        );
    }
}

/// Each image can be read back from the built atlas at its rectangle `b`:
/// byte `col` of row `row` of image `i` is the atlas's byte at column
/// `4 * b.x + col` of row `b.y + row`, unless an image copied after it
/// covers that pixel (packing can make rectangles overlap).
#[verifier::spinoff_prover]
pub proof fn lemma_atlas_holds_images(images: Seq<ImageModel>, order: Seq<usize>, i: int, row: int, col: int)
    requires
        is_arrangement(order, images.len() as int),
        packs(images, order),
        0 <= i < images.len(),
        0 <= row < images[i].height,
        0 <= col < 4 * images[i].width,
        ({
            let b = atlas_of(images, order).bounds[i + 1];
            !copied_over(images, order, i as usize, b.x + col / 4, b.y + row)
        }),
    ensures
        ({
            let a = atlas_of(images, order);
            let b = a.bounds[i + 1];
            a.image.data[(b.y + row) * (4 * a.image.width) + 4 * b.x + col] == images[i].data[row * (4
                * images[i].width) + col]
        }),
{
    let n = images.len() as int;
    lemma_atlas_layout(images, order);
    let t = pack(images, order)->0;
    let w = t.bounds.w;
    let h = t.bounds.h;
    lemma_pack_prefix_shape(images, order, n);
    lemma_leaves_inside(t, images, w as int, h as int);
    lemma_pack_prefix_holds_all(images, order, n);
    let spots = leaves(t);
    assert(paint_order(images, order) == spots);
    let init_bounds = Seq::new(
        (order.len() + 1) as nat,
        |k: int|
            if k == 0 {
                PixelBounds { x: 0, y: 0, w, h }
            } else {
                PixelBounds { x: 0, y: 0, w: 0, h: 0 }
            },
    );
    assert forall|j: int| 0 <= j < spots.len() implies #[trigger] spots[j].0 + 1 < init_bounds.len() by {
        assert(spot_inside(spots[j], images, w as int, h as int));
    }
    // The image's last spot is where its rectangle says it is.
    assert(holds_entry(order, i));
    let m = choose|m: int| 0 <= m < order.len() && order[m] == i;
    assert(spots_hold(spots, order[m]));
    lemma_last_spot_of(spots, i as usize);
    let last = last_spot_of(spots, i as usize);
    lemma_placed_by_last_spot(images, spots, init_bounds, i as usize);
    let a = atlas_of(images, order);
    let b = a.bounds[i + 1];
    let (p, x, y) = spots[last];
    assert(b.x == x && b.y == y);
    // The byte lies in the atlas.
    let px = b.x + col / 4;
    let py = b.y + row;
    let c = col % 4;
    assert(col == 4 * (col / 4) + c);
    let blank = Seq::new(rgba_len(w as int, h as int) as nat, |k: int| 0u8);
    lemma_row_end(py, h as int, 4 * w, 4 * px + c);
    assert(h * (4 * w) == rgba_len(w as int, h as int)) by (nonlinear_arith);
    // After the image's own copy, the byte is the image's; no later copy
    // touches it.
    let upto = spots.take(last + 1);
    assert(upto.drop_last() =~= spots.take(last));
    assert(upto.last() == spots[last]);
    lemma_painted_len(images, spots.take(last), w as int, blank);
    lemma_blit_at(
        painted(images, spots.take(last), w as int, blank),
        w as int,
        images[i].data,
        images[i].width as int,
        images[i].height as int,
        x as int,
        y as int,
        4,
        py,
        4 * px + c,
    );
    assert forall|j: int| last + 1 <= j < spots.len() implies !spot_covers(images, #[trigger] spots[j], px, py) by {
        if spot_covers(images, spots[j], px, py) {
            assert(copied_over(images, order, i as usize, px, py));
        }
    }
    lemma_painted_untouched(images, spots, w as int, blank, last + 1, px, py, c);
}

/// Every node of `t` keeps clear of the `w0` x `h0` rectangle at the origin
/// where the image at position `first` lies: free nodes and the leaves of
/// other images start right of it or below it, and the leaves of `first`
/// are at the origin.
pub open spec fn clear_of_first(t: AtlasNode, first: usize, w0: int, h0: int) -> bool
    decreases t,
{
    &&& match t.state {
        AtlasNodeState::Unused => t.bounds.x >= w0 || t.bounds.y >= h0,
        AtlasNodeState::UsedLeaf(p) => if p == first {
            t.bounds.x == 0 && t.bounds.y == 0
        } else {
            t.bounds.x >= w0 || t.bounds.y >= h0
        },
        AtlasNodeState::Used => true,
    }
    &&& match t.children {
        None => true,
        Some(pair) => clear_of_first(pair.0, first, w0, h0) && clear_of_first(pair.1, first, w0, h0),
    }
}

/// Placing another image keeps the tree clear of the first image, and keeps
/// the root's rectangle.
proof fn lemma_place_clear(n: AtlasNode, pos: usize, w: u32, h: u32, first: usize, w0: int, h0: int)
    requires
        clear_of_first(n, first, w0, h0),
        within(n, u32::MAX as int, u32::MAX as int),
        pos != first,
        place(n, pos, w, h) is Some,
    ensures
        clear_of_first(place(n, pos, w, h)->0, first, w0, h0),
        place(n, pos, w, h)->0.bounds == n.bounds,
    decreases n,
{
    if n.state.spec_is_used() {
        let pair = n.children->0;
        if place(pair.0, pos, w, h) is Some {
            lemma_place_clear(pair.0, pos, w, h, first, w0, h0);
        } else {
            lemma_place_clear(pair.1, pos, w, h, first, w0, h0);
        }
    } else {
        let t = with_sprite(n, pos, w, h);
        let pair = t.children->0;
        assert(clear_of_first(pair.0, first, w0, h0));
        assert(clear_of_first(pair.1, first, w0, h0));
    }
}

/// Packing keeps the tree clear of the first image, whose rectangle stays
/// within the root.
proof fn lemma_pack_prefix_clear(images: Seq<ImageModel>, order: Seq<usize>, k: int)
    requires
        1 <= k <= order.len(),
        forall|m: int| 0 <= m < order.len() ==> #[trigger] order[m] < images.len(),
        forall|m: int| 1 <= m < order.len() ==> #[trigger] order[m] != order[0],
        pack_prefix(images, order, k) is Some,
    ensures
        ({
            let t = pack_prefix(images, order, k)->0;
            let first = order[0];
            &&& clear_of_first(t, first, images[first as int].width as int, images[first as int].height as int)
            &&& t.bounds.x == 0 && t.bounds.y == 0
            &&& t.bounds.w >= images[first as int].width
            &&& t.bounds.h >= images[first as int].height
        }),
    decreases k,
{
    let first = order[0];
    let w0 = images[first as int].width as int;
    let h0 = images[first as int].height as int;
    if k > 1 {
        lemma_pack_prefix_clear(images, order, k - 1);
        let t = pack_prefix(images, order, k - 1)->0;
        let p = order[k - 1];
        let w = images[p as int].width;
        let h = images[p as int].height;
        lemma_pack_prefix_shape(images, order, k - 1);
        lemma_within_mono(t, t.bounds.w as int, t.bounds.h as int, u32::MAX as int, u32::MAX as int);
        if place(t, p, w, h) is Some {
            lemma_place_clear(t, p, w, h, first, w0, h0);
        } else {
            lemma_growth_is_outside(t, w, h);
            lemma_grow_within(t, w, h);
            lemma_within_mono(
                grow(t, w, h)->0,
                grow(t, w, h)->0.bounds.w as int,
                grow(t, w, h)->0.bounds.h as int,
                u32::MAX as int,
                u32::MAX as int,
            );
            let g = grow(t, w, h)->0;
            let pair = g.children->0;
            assert(clear_of_first(pair.0, first, w0, h0));
            assert(clear_of_first(pair.1, first, w0, h0));
            assert(clear_of_first(g, first, w0, h0));
            lemma_place_clear(g, p, w, h, first, w0, h0);
        }
        assert(insert(t, p, w, h) == pack_prefix(images, order, k));
    }
}

/// Every leaf of a tree clear of the first image is at the origin when it
/// is the first image's, and right of or below that image otherwise.
proof fn lemma_leaves_clear(t: AtlasNode, first: usize, w0: int, h0: int)
    requires
        clear_of_first(t, first, w0, h0),
    ensures
        forall|j: int|
            0 <= j < leaves(t).len() ==> {
                let s = #[trigger] leaves(t)[j];
                if s.0 == first {
                    s.1 == 0 && s.2 == 0
                } else {
                    s.1 >= w0 || s.2 >= h0
                }
            },
    decreases t,
{
    if let Some(pair) = t.children {
        lemma_leaves_clear(pair.0, first, w0, h0);
        lemma_leaves_clear(pair.1, first, w0, h0);
    }
    let own = match t.state {
        AtlasNodeState::UsedLeaf(pos) => seq![(pos, t.bounds.x, t.bounds.y)],
        _ => Seq::empty(),
    };
    let below = if t.state.spec_is_used() {
        match t.children {
            Some(pair) => leaves(pair.1) + leaves(pair.0),
            None => Seq::empty(),
        }
    } else {
        Seq::empty()
    };
    assert(leaves(t) == own + below);
    assert forall|j: int| 0 <= j < leaves(t).len() implies {
        let s = #[trigger] leaves(t)[j];
        if s.0 == first {
            s.1 == 0 && s.2 == 0
        } else {
            s.1 >= w0 || s.2 >= h0
        }
    } by {
        if j < own.len() {
            assert(leaves(t)[j] == own[j]);
        } else {
            assert(leaves(t)[j] == below[j - own.len()]);
            if let Some(pair) = t.children {
                let k = j - own.len();
                if k < leaves(pair.1).len() {
                    assert(below[k] == leaves(pair.1)[k]);
                } else {
                    assert(below[k] == leaves(pair.0)[k - leaves(pair.1).len()]);
                }
            }
        }
    }
}

/// The image packed first (the longest) lies at the origin of the built
/// atlas and no other image covers any of its pixels, since growing and
/// splitting only make room right of it or below it: it reads back in full,
/// byte `col` of its row `row` being the atlas's byte at column `col` of row
/// `row`.
pub proof fn lemma_first_image_reads_back(images: Seq<ImageModel>, order: Seq<usize>, row: int, col: int)
    requires
        is_arrangement(order, images.len() as int),
        packs(images, order),
        images.len() >= 1,
        0 <= row < images[order[0] as int].height,
        0 <= col < 4 * images[order[0] as int].width,
    ensures
        ({
            let i = order[0] as int;
            let a = atlas_of(images, order);
            &&& a.bounds[i + 1] == (PixelBounds { x: 0, y: 0, w: images[i].width, h: images[i].height })
            &&& a.image.data[row * (4 * a.image.width) + col] == images[i].data[row * (4 * images[i].width) + col]
        }),
{
    let n = images.len() as int;
    let first = order[0];
    let i = first as int;
    let w0 = images[i].width as int;
    let h0 = images[i].height as int;
    assert forall|m: int| 1 <= m < order.len() implies #[trigger] order[m] != order[0] by {
        assert(order[0] != order[m]);
    }
    lemma_pack_prefix_clear(images, order, n);
    let t = pack(images, order)->0;
    let spots = leaves(t);
    assert(paint_order(images, order) == spots);
    lemma_leaves_clear(t, first, w0, h0);
    // The first image's rectangle is that of its last spot, at the origin.
    lemma_pack_prefix_shape(images, order, n);
    lemma_leaves_inside(t, images, t.bounds.w as int, t.bounds.h as int);
    lemma_pack_prefix_holds_all(images, order, n);
    assert(spots_hold(spots, order[0]));
    lemma_last_spot_of(spots, first);
    let last = last_spot_of(spots, first);
    let init_bounds = Seq::new(
        (order.len() + 1) as nat,
        |k: int|
            if k == 0 {
                PixelBounds { x: 0, y: 0, w: t.bounds.w, h: t.bounds.h }
            } else {
                PixelBounds { x: 0, y: 0, w: 0, h: 0 }
            },
    );
    assert forall|j: int| 0 <= j < spots.len() implies #[trigger] spots[j].0 + 1 < init_bounds.len() by {
        assert(spot_inside(spots[j], images, t.bounds.w as int, t.bounds.h as int));
    }
    lemma_placed_by_last_spot(images, spots, init_bounds, first);
    let a = atlas_of(images, order);
    assert(a.bounds[i + 1] == (PixelBounds { x: 0, y: 0, w: images[i].width, h: images[i].height }));
    // No image copied after it covers any of its pixels.
    let px = col / 4;
    let py = row;
    assert(!copied_over(images, order, first, px, py)) by {
        if copied_over(images, order, first, px, py) {
            let j = choose|j: int|
                last_spot_of(spots, first) < j < spots.len() && spot_covers(images, #[trigger] spots[j], px, py);
            assert(spots[j].0 != first);
        }
    }
    assert(0 + col / 4 == px);
    lemma_atlas_holds_images(images, order, i, row, col);
}

} // verus!
