use vstd::prelude::*;
use crate::graphics::image::{blit, blit_into, image_len, lemma_blit_at, lemma_row_end};
use rustc_hash::{FxHashMap, FxHasher};
use std::hash::BuildHasherDefault;

verus! {

/// Where a glyph lies in a glyph sheet, in pixels.
#[derive(Clone, Copy, PartialEq, Eq, Debug)]
pub struct GlyphBounds {
    pub x: u32,
    pub y: u32,
    pub w: u32,
    pub h: u32,
}

impl GlyphBounds {
    pub fn new(x: u32, y: u32, w: u32, h: u32) -> (b: Self)
        ensures
            b == (GlyphBounds { x, y, w, h }),
    {
        Self { x, y, w, h }
    }
}

#[verifier::external_type_specification]
#[verifier::external_body]
pub struct ExFxHasher(FxHasher);

#[verifier::external_type_specification]
#[verifier::external_body]
#[verifier::reject_recursive_types(H)]
pub struct ExBuildHasherDefault<H>(BuildHasherDefault<H>);

/// The map from characters to their place in a glyph sheet.
pub type GlyphMap = FxHashMap<char, GlyphBounds>;

/// The glyphs that a `rustc_hash::FxHashMap<char, GlyphBounds>` holds.
pub uninterp spec fn glyph_entries(map: GlyphMap) -> Map<char, GlyphBounds>;

/// The map holding no glyph.
pub open spec fn no_glyphs() -> Map<char, GlyphBounds> {
    Map::empty()
}

/// `FxHashMap::default()` (`HashMap::default` with the Fx hasher): a map
/// holding no entry.
#[verifier::external_body]
fn glyph_map_new() -> (fresh: GlyphMap)
    ensures
        glyph_entries(fresh) == no_glyphs(),
{
    FxHashMap::default()
}

/// `HashMap::insert` on an `FxHashMap`: afterwards `c` maps to `bounds` and
/// every other entry is unchanged.
#[verifier::external_body]
fn glyph_map_insert(map: &mut GlyphMap, c: char, bounds: GlyphBounds)
    ensures
        glyph_entries(*final(map)) == glyph_entries(*old(map)).insert(c, bounds),
{
    map.insert(c, bounds);
}

/// The rectangles `a` and `b` share no pixel.
pub open spec fn disjoint(a: GlyphBounds, b: GlyphBounds) -> bool {
    ||| a.x + a.w <= b.x
    ||| b.x + b.w <= a.x
    ||| a.y + a.h <= b.y
    ||| b.y + b.h <= a.y
}

/// What a glyph sheet is: the glyphs it holds, its one-byte-per-pixel
/// bitmap, its size, and where the next glyph goes.
pub ghost struct GlyphSheetModel {
    pub glyphs: Map<char, GlyphBounds>,
    pub atlas: Seq<u8>,
    pub atlas_width: u32,
    pub atlas_height: u32,
    pub cursor_x: u32,
    pub cursor_y: u32,
    pub next_cursor_y: u32,
}

/// Where the next `width` x `height` glyph goes: right of the last one when
/// it fits before the right edge, else at the start of the next row (whose
/// top is below every glyph) at the same column; `None` when it does not fit
/// above the bottom edge. Both comparisons are strict.
pub open spec fn next_free_position(m: GlyphSheetModel, width: u32, height: u32) -> Option<(u32, u32)> {
    if m.cursor_x + width < m.atlas_width {
        if m.cursor_y + height < m.atlas_height {
            Some((m.cursor_x, m.cursor_y))
        } else {
            None
        }
    } else {
        if width < m.atlas_width && m.next_cursor_y + height < m.atlas_height {
            Some((m.cursor_x, m.next_cursor_y))
        } else {
            None
        }
    }
}

/// Whether a `width` x `height` glyph can be inserted: there is a free
/// position and the glyph fits there before the right edge. Otherwise the
/// sheet would have to grow, which is not implemented.
pub open spec fn can_insert(m: GlyphSheetModel, width: u32, height: u32) -> bool {
    match next_free_position(m, width, height) {
        Some((x, y)) => x + width <= m.atlas_width,
        None => false,
    }
}

/// The sheet after a `width` x `height` glyph `c`, whose bitmap is
/// `bitmap`, was inserted at its free position.
pub open spec fn after_insert(
    m: GlyphSheetModel,
    c: char,
    bitmap: Seq<u8>,
    width: u32,
    height: u32,
) -> GlyphSheetModel {
    let (x, y) = next_free_position(m, width, height)->0;
    GlyphSheetModel {
        glyphs: m.glyphs.insert(c, GlyphBounds { x, y, w: width, h: height }),
        atlas: blit(m.atlas, m.atlas_width as int, bitmap, width as int, height as int, x as int, y as int, 1),
        cursor_x: (x + width) as u32,
        cursor_y: y,
        next_cursor_y: if m.next_cursor_y >= y + height {
            m.next_cursor_y
        } else {
            (y + height) as u32
        },
        ..m
    }
}

/// A single-channel bitmap that glyphs are packed into, row by row.
pub struct GlyphSheet {
    glyphs: GlyphMap,
    atlas: Vec<u8>,
    atlas_width: u32,
    atlas_height: u32,
    cursor_x: u32,
    cursor_y: u32,
    next_cursor_y: u32,
}

impl View for GlyphSheet {
    type V = GlyphSheetModel;

    closed spec fn view(&self) -> GlyphSheetModel {
        GlyphSheetModel {
            glyphs: glyph_entries(self.glyphs),
            atlas: self.atlas@,
            atlas_width: self.atlas_width,
            atlas_height: self.atlas_height,
            cursor_x: self.cursor_x,
            cursor_y: self.cursor_y,
            next_cursor_y: self.next_cursor_y,
        }
    }
}

impl Default for GlyphSheet {
    /// An empty 256 x 256 sheet.
    fn default() -> (sheet: Self)
        ensures
            sheet.wf(),
            sheet@ == (GlyphSheetModel {
                glyphs: Map::empty(),
                atlas: Seq::new(65536, |i: int| 0u8),
                atlas_width: 256,
                atlas_height: 256,
                cursor_x: 0,
                cursor_y: 0,
                next_cursor_y: 0,
            }),
    {
        Self::with_size(256, 256)
    }
}

impl GlyphSheet {
    /// The sheet's consistency: the bitmap holds one byte per pixel, every
    /// glyph lies within the sheet and below the next row's top, every glyph
    /// either ends above the current row or left of the cursor, and no two
    /// glyphs overlap.
    pub open spec fn wf(&self) -> bool {
        let m = self@;
        &&& m.atlas.len() == image_len(m.atlas_width as int, m.atlas_height as int, 1)
        &&& m.cursor_y <= m.next_cursor_y
        &&& forall|c: char|
            #[trigger] m.glyphs.contains_key(c) ==> {
                let g = m.glyphs[c];
                &&& g.x + g.w <= m.atlas_width
                &&& g.y + g.h <= m.atlas_height
                &&& g.y + g.h <= m.next_cursor_y
                &&& (g.y + g.h <= m.cursor_y || g.x + g.w <= m.cursor_x)
            }
        &&& forall|a: char, b: char|
            #[trigger] m.glyphs.contains_key(a) && #[trigger] m.glyphs.contains_key(b) && a != b
                ==> disjoint(m.glyphs[a], m.glyphs[b])
    }

    /// An empty sheet of the given size. Its byte count, computed in `u32`,
    /// must not overflow.
    pub fn with_size(width: u32, height: u32) -> (sheet: Self)
        requires
            width * height <= u32::MAX,
        ensures
            sheet.wf(),
            sheet@ == (GlyphSheetModel {
                glyphs: Map::empty(),
                atlas: Seq::new((width * height) as nat, |i: int| 0u8),
                atlas_width: width,
                atlas_height: height,
                cursor_x: 0,
                cursor_y: 0,
                next_cursor_y: 0,
            }),
    {
        let atlas: Vec<u8> = vec![0u8; (width * height) as usize];
        assert(atlas@ =~= Seq::new((width * height) as nat, |i: int| 0u8));
        let sheet = Self {
            glyphs: glyph_map_new(),
            atlas,
            atlas_width: width,
            atlas_height: height,
            cursor_x: 0,
            cursor_y: 0,
            next_cursor_y: 0,
        };
        assert(sheet@.glyphs =~= Map::<char, GlyphBounds>::empty());
        sheet
    }

    /// Where the next `width` x `height` glyph goes (see
    /// `next_free_position`).
    fn get_next_free_position(&self, width: u32, height: u32) -> (position: Option<(u32, u32)>)
        ensures
            position == next_free_position(self@, width, height),
    {
        let cursor_x = self.cursor_x as u64;
        let cursor_y = self.cursor_y as u64;
        let next_cursor_y = self.next_cursor_y as u64;
        if cursor_x + (width as u64) < self.atlas_width as u64 {
            if cursor_y + (height as u64) < self.atlas_height as u64 {
                Some((self.cursor_x, self.cursor_y))
            } else {
                None
            }
        } else {
            if width < self.atlas_width && next_cursor_y + (height as u64) < self.atlas_height as u64 {
                Some((self.cursor_x, self.next_cursor_y))
            } else {
                None
            }
        }
    }

    /// Inserts glyph `c`, whose bitmap `bitmap` is `bitmap_width` x
    /// `bitmap_height` pixels, at the next free position. The bitmap's size
    /// must match, and there must be room (see `can_insert`).
    #[verifier::spinoff_prover]
    pub fn insert(&mut self, c: char, bitmap: &[u8], bitmap_width: u32, bitmap_height: u32)
        requires
            old(self).wf(),
            bitmap_width * bitmap_height <= u32::MAX,
            bitmap@.len() == bitmap_width * bitmap_height,
            can_insert(old(self)@, bitmap_width, bitmap_height),
        ensures
            final(self).wf(),
            final(self)@ == after_insert(old(self)@, c, bitmap@, bitmap_width, bitmap_height),
    {
        let ghost m = self@;
        let position = self.get_next_free_position(bitmap_width, bitmap_height);
        let (x, y) = match position {
            Some(p) => p,
            None => {
                assert(false);
                (0, 0)
            },
        };
        blit_into(
            &mut self.atlas,
            self.atlas_width,
            self.atlas_height,
            bitmap,
            bitmap_width,
            bitmap_height,
            x,
            y,
            1,
        );
        let bounds = GlyphBounds { x, y, w: bitmap_width, h: bitmap_height };
        glyph_map_insert(&mut self.glyphs, c, bounds);
        self.cursor_x = x + bitmap_width;
        self.cursor_y = y;
        if self.next_cursor_y < y + bitmap_height {
            self.next_cursor_y = y + bitmap_height;
        }
        proof {
            let n = self@;
            assert(n == after_insert(m, c, bitmap@, bitmap_width, bitmap_height));
            assert forall|a: char, b: char|
                #[trigger] n.glyphs.contains_key(a) && #[trigger] n.glyphs.contains_key(b) && a != b
                    implies disjoint(n.glyphs[a], n.glyphs[b]) by {
                if a != c && b != c {
                    assert(m.glyphs.contains_key(a) && m.glyphs.contains_key(b));
                } else if a == c {
                    assert(m.glyphs.contains_key(b));
                } else {
                    assert(m.glyphs.contains_key(a));
                }
            }
            assert forall|d: char| #[trigger] n.glyphs.contains_key(d) implies {
                let g = n.glyphs[d];
                &&& g.x + g.w <= n.atlas_width
                &&& g.y + g.h <= n.atlas_height
                &&& g.y + g.h <= n.next_cursor_y
                &&& (g.y + g.h <= n.cursor_y || g.x + g.w <= n.cursor_x)
            } by {
                if d != c {
                    assert(m.glyphs.contains_key(d));
                }
            }
        }
    }

    #[inline]
    pub fn width(&self) -> (w: u32)
        ensures
            w == self@.atlas_width,
    {
        self.atlas_width
    }

    #[inline]
    pub fn height(&self) -> (h: u32)
        ensures
            h == self@.atlas_height,
    {
        self.atlas_height
    }

    /// The sheet's bitmap, one byte per pixel, row by row.
    #[inline]
    pub fn bytes(&self) -> (b: &[u8])
        ensures
            b@ == self@.atlas,
    {
        self.atlas.as_slice()
    }
}

/// What an insert writes can be read back: byte `col` of row `row` of the
/// inserted glyph's bitmap is the sheet's byte at that pixel of the glyph's
/// rectangle, and every other glyph's bytes are left as they were, since
/// glyphs never overlap.
pub proof fn lemma_insert_reads_back(
    sheet: GlyphSheet,
    c: char,
    bitmap: Seq<u8>,
    width: u32,
    height: u32,
)
    requires
        sheet.wf(),
        can_insert(sheet@, width, height),
        bitmap.len() == width * height,
    ensures
        ({
            let m = sheet@;
            let after = after_insert(m, c, bitmap, width, height);
            let g = after.glyphs[c];
            &&& forall|row: int, col: int|
                0 <= row < height && 0 <= col < width ==> after.atlas[(g.y + row) * m.atlas_width + g.x
                    + col] == #[trigger] bitmap[row * width + col]
            &&& forall|d: char, row: int, col: int|
                d != c && m.glyphs.contains_key(d) && 0 <= row < m.glyphs[d].h && 0 <= col < m.glyphs[d].w
                    ==> #[trigger] after.atlas[(m.glyphs[d].y + row) * m.atlas_width + m.glyphs[d].x + col]
                    == m.atlas[(m.glyphs[d].y + row) * m.atlas_width + m.glyphs[d].x + col]
        }),
{
    let m = sheet@;
    let after = after_insert(m, c, bitmap, width, height);
    let (x, y) = next_free_position(m, width, height)->0;
    let w = m.atlas_width as int;
    let h = m.atlas_height as int;
    assert forall|row: int, col: int| 0 <= row < height && 0 <= col < width implies after.atlas[(y + row)
        * w + x + col] == #[trigger] bitmap[row * width + col] by {
        lemma_row_end(y + row, h, w, x + col);
        lemma_blit_at(m.atlas, w, bitmap, width as int, height as int, x as int, y as int, 1, y + row, x + col);
    }
    assert forall|d: char, row: int, col: int|
        d != c && m.glyphs.contains_key(d) && 0 <= row < m.glyphs[d].h && 0 <= col < m.glyphs[d].w implies
        #[trigger] after.atlas[(m.glyphs[d].y + row) * w + m.glyphs[d].x + col] == m.atlas[(m.glyphs[d].y
        + row) * w + m.glyphs[d].x + col] by {
        let gd = m.glyphs[d];
        lemma_row_end(gd.y + row, h, w, gd.x + col);
        lemma_blit_at(
            m.atlas,
            w,
            bitmap,
            width as int,
            height as int,
            x as int,
            y as int,
            1,
            gd.y + row,
            gd.x + col,
        );
    }
}

} // verus!
