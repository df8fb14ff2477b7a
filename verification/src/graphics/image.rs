use vstd::prelude::*;
use vstd::arithmetic::div_mod::{lemma_fundamental_div_mod, lemma_fundamental_div_mod_converse};
use vstd::arithmetic::mul::{lemma_mul_inequality, lemma_mul_is_commutative, lemma_mul_is_distributive_add_other_way};

verus! {

/// What an RGBA image is: its dimensions and its pixels, row by row, four
/// bytes (red, green, blue, alpha) per pixel.
pub ghost struct ImageModel {
    pub width: u32,
    pub height: u32,
    pub data: Seq<u8>,
}

/// Number of bytes of an RGBA image of the given dimensions.
pub open spec fn rgba_len(width: int, height: int) -> int {
    image_len(width, height, 4)
}

/// Byte `k` of `dst` (an image `dst_width` pixels wide, `bpp` bytes per
/// pixel) after an image of `src_width` x `src_height` pixels, whose bytes
/// are `src`, was copied to it with its top-left corner at pixel (`x`, `y`).
/// Only the first `rows` rows of the source, and `bytes` bytes of the next
/// one, are copied.
pub open spec fn blit_byte(
    dst: Seq<u8>,
    dst_width: int,
    src: Seq<u8>,
    src_width: int,
    x: int,
    y: int,
    bpp: int,
    rows: int,
    bytes: int,
    k: int,
) -> u8 {
    let row = k / (dst_width * bpp);
    let col = k % (dst_width * bpp);
    let src_col = col - x * bpp;
    if y <= row < y + rows && 0 <= src_col < src_width * bpp {
        src[(row - y) * (src_width * bpp) + src_col]
    } else if row == y + rows && 0 <= src_col < bytes {
        src[(row - y) * (src_width * bpp) + src_col]
    } else {
        dst[k]
    }
}

/// `dst` after the first `rows` rows and `bytes` more bytes of the source
/// were copied (see `blit_byte`).
pub open spec fn blit_partial(
    dst: Seq<u8>,
    dst_width: int,
    src: Seq<u8>,
    src_width: int,
    x: int,
    y: int,
    bpp: int,
    rows: int,
    bytes: int,
) -> Seq<u8> {
    Seq::new(
        dst.len(),
        |k: int| blit_byte(dst, dst_width, src, src_width, x, y, bpp, rows, bytes, k),
    )
}

/// The bytes of image `dst` (`dst_width` pixels wide, `bpp` bytes per
/// pixel) after the whole image `src` (`src_width` x `src_height` pixels)
/// was copied onto it with its top-left corner at pixel (`x`, `y`).
pub open spec fn blit(
    dst: Seq<u8>,
    dst_width: int,
    src: Seq<u8>,
    src_width: int,
    src_height: int,
    x: int,
    y: int,
    bpp: int,
) -> Seq<u8> {
    blit_partial(dst, dst_width, src, src_width, x, y, bpp, src_height, 0)
}

/// Number of bytes of an image of the given dimensions and bytes per pixel.
pub open spec fn image_len(width: int, height: int, bpp: int) -> int {
    width * height * bpp
}

/// Division of `k` by `stride` gives back the row and the column that `k`
/// was built from.
pub proof fn lemma_row_col(k: int, stride: int, row: int, col: int)
    requires
        stride > 0,
        0 <= col < stride,
        k == row * stride + col,
    ensures
        k / stride == row,
        k % stride == col,
{
    lemma_fundamental_div_mod_converse(k, stride, row, col);
}

/// Every index is its row times the stride plus its column.
pub proof fn lemma_split_index(k: int, stride: int)
    requires
        stride > 0,
    ensures
        k == (k / stride) * stride + k % stride,
        0 <= k % stride < stride,
{
    lemma_fundamental_div_mod(k, stride);
    lemma_mul_is_commutative(stride, k / stride);
}

/// Rows below `rows` (of `stride` bytes each) end before `rows * stride`.
pub proof fn lemma_row_end(row: int, rows: int, stride: int, col: int)
    requires
        0 <= row < rows,
        stride > 0,
        0 <= col < stride,
    ensures
        0 <= row * stride + col < rows * stride,
{
    lemma_mul_inequality(row + 1, rows, stride);
    lemma_mul_is_distributive_add_other_way(stride, row, 1);
    assert(0 <= row * stride) by (nonlinear_arith)
        requires
            0 <= row,
            stride > 0,
    ;
}

/// Byte `col` of row `row` of an image `width` pixels wide (`bpp` bytes per
/// pixel), after `src` (`src_width` x `src_height` pixels) was copied to
/// pixel (`x`, `y`): the source's byte where the source covers it, else the
/// byte that was there.
pub proof fn lemma_blit_at(
    dst: Seq<u8>,
    width: int,
    src: Seq<u8>,
    src_width: int,
    src_height: int,
    x: int,
    y: int,
    bpp: int,
    row: int,
    col: int,
)
    requires
        width > 0,
        bpp > 0,
        0 <= col < width * bpp,
        0 <= row,
        0 <= row * (width * bpp) + col < dst.len(),
    ensures
        blit(dst, width, src, src_width, src_height, x, y, bpp)[row * (width * bpp) + col] == if y
            <= row < y + src_height && x * bpp <= col < x * bpp + src_width * bpp {
            src[(row - y) * (src_width * bpp) + (col - x * bpp)]
        } else {
            dst[row * (width * bpp) + col]
        },
{
    assert(width * bpp > 0) by (nonlinear_arith)
        requires
            width > 0,
            bpp > 0,
    ;
    lemma_row_col(row * (width * bpp) + col, width * bpp, row, col);
    assert(x * bpp + src_width * bpp == (x + src_width) * bpp) by (nonlinear_arith);
}

/// Copies the image whose bytes are `src` (`src_width` x `src_height`
/// pixels) onto the image whose bytes are `dst` (`dst_width` x `dst_height`
/// pixels), with its top-left corner at pixel (`x`, `y`); both images hold
/// `bpp` bytes per pixel.
#[verifier::spinoff_prover]
pub fn blit_into(
    dst: &mut Vec<u8>,
    dst_width: u32,
    dst_height: u32,
    src: &[u8],
    src_width: u32,
    src_height: u32,
    x: u32,
    y: u32,
    bpp: u32,
)
    requires
        1 <= bpp <= 4,
        old(dst)@.len() == image_len(dst_width as int, dst_height as int, bpp as int),
        src@.len() == image_len(src_width as int, src_height as int, bpp as int),
        x + src_width <= dst_width,
        y + src_height <= dst_height,
    ensures
        final(dst)@ == blit(
            old(dst)@,
            dst_width as int,
            src@,
            src_width as int,
            src_height as int,
            x as int,
            y as int,
            bpp as int,
        ),
{
    let ghost orig = dst@;
    let ghost dw = dst_width as int;
    let ghost sw = src_width as int;
    let ghost bp = bpp as int;
    if src_width == 0 || src_height == 0 {
        assert(dst@ =~= blit(orig, dw, src@, sw, src_height as int, x as int, y as int, bp)) by {
            assert forall|k: int| 0 <= k < orig.len() implies #[trigger] dst@[k] == blit_byte(
                orig,
                dw,
                src@,
                sw,
                x as int,
                y as int,
                bp,
                src_height as int,
                0,
                k,
            ) by {}
        }
        return;
    }
    let dst_len = dst.len();
    let src_len = src.len();
    assert(dst_len == (dst_width as int) * ((dst_height as int) * bp)) by (nonlinear_arith)
        requires
            dst_len == dst_width * dst_height * bp,
    ;
    assert((dst_width as int) * bp <= dst_len) by (nonlinear_arith)
        requires
            dst_len == (dst_width as int) * ((dst_height as int) * bp),
            dst_height >= 1,
            bp >= 1,
    ;
    let stride: usize = dst_width as usize * bpp as usize;
    assert((src_width as int) * bp <= (dst_width as int) * bp && (src_width as int) * bp > 0) by (nonlinear_arith)
        requires
            src_width <= dst_width,
            src_width > 0,
            bp >= 1,
    ;
    let src_stride: usize = src_width as usize * bpp as usize;
    assert(dst@.len() == (dst_height as int) * (stride as int)) by (nonlinear_arith)
        requires
            dst@.len() == dst_width * dst_height * bp,
            stride == dst_width * bp,
    ;
    assert(src@.len() == (src_height as int) * (src_stride as int)) by (nonlinear_arith)
        requires
            src@.len() == src_width * src_height * bp,
            src_stride == src_width * bp,
    ;
    assert(x * bp + src_stride <= stride) by (nonlinear_arith)
        requires
            x + src_width <= dst_width,
            stride == dst_width * bp,
            src_stride == src_width * bp,
            bp >= 1,
    ;
    let mut i: usize = 0;
    while i < src_height as usize
        invariant
            orig.len() == (dst_height as int) * (stride as int),
            src@.len() == (src_height as int) * (src_stride as int),
            dst@.len() == orig.len(),
            orig.len() == dst_len,
            src@.len() == src_len,
            stride == dw * bp,
            src_stride == sw * bp,
            x * bp + src_stride <= stride,
            src_stride > 0,
            dw == dst_width,
            sw == src_width,
            bp == bpp,
            1 <= bpp <= 4,
            src_width > 0,
            x + src_width <= dst_width,
            y + src_height <= dst_height,
            i <= src_height,
            dst@ == blit_partial(orig, dw, src@, sw, x as int, y as int, bp, i as int, 0),
        decreases src_height - i,
    {
        let row: usize = y as usize + i;
        proof {
            lemma_row_end(row as int, dst_height as int, stride as int, x * bp);
            lemma_row_end(i as int, src_height as int, src_stride as int, 0);
        }
        let dst_row: usize = row * stride + x as usize * bpp as usize;
        let src_row: usize = i * src_stride;
        let mut b: usize = 0;
        while b < src_stride
            invariant
                orig.len() == (dst_height as int) * (stride as int),
                src@.len() == (src_height as int) * (src_stride as int),
                dst@.len() == orig.len(),
                orig.len() == dst_len,
                src@.len() == src_len,
                stride == dw * bp,
                src_stride == sw * bp,
                x * bp + src_stride <= stride,
                src_stride > 0,
                dw == dst_width,
                sw == src_width,
                bp == bpp,
                1 <= bpp <= 4,
                src_width > 0,
                x + src_width <= dst_width,
                y + src_height <= dst_height,
                i < src_height,
                row == y + i,
                dst_row == row * stride + x * bp,
                src_row == i * src_stride,
                b <= src_stride,
                dst@ == blit_partial(orig, dw, src@, sw, x as int, y as int, bp, i as int, b as int),
            decreases src_stride - b,
        {
            proof {
                lemma_row_end(row as int, dst_height as int, stride as int, x * bp + b);
                lemma_row_end(i as int, src_height as int, src_stride as int, b as int);
            }
            let value = src[src_row + b];
            let target: usize = dst_row + b;
            let ghost before = dst@;
            dst.set(target, value);
            proof {
                lemma_row_col(target as int, stride as int, row as int, x * bp + b);
                assert forall|k: int| 0 <= k < orig.len() implies #[trigger] dst@[k] == blit_byte(
                    orig,
                    dw,
                    src@,
                    sw,
                    x as int,
                    y as int,
                    bp,
                    i as int,
                    b + 1,
                    k,
                ) by {
                    if k != target {
                        lemma_split_index(k, stride as int);
                        assert(before[k] == blit_byte(
                            orig,
                            dw,
                            src@,
                            sw,
                            x as int,
                            y as int,
                            bp,
                            i as int,
                            b as int,
                            k,
                        ));
                    }
                }
                assert(dst@ =~= blit_partial(
                    orig,
                    dw,
                    src@,
                    sw,
                    x as int,
                    y as int,
                    bp,
                    i as int,
                    b + 1,
                ));
            }
            b = b + 1;
        }
        proof {
            assert forall|k: int| 0 <= k < orig.len() implies #[trigger] dst@[k] == blit_byte(
                orig,
                dw,
                src@,
                sw,
                x as int,
                y as int,
                bp,
                i + 1,
                0,
                k,
            ) by {
                assert(dst@[k] == blit_byte(
                    orig,
                    dw,
                    src@,
                    sw,
                    x as int,
                    y as int,
                    bp,
                    i as int,
                    src_stride as int,
                    k,
                ));
            }
            assert(dst@ =~= blit_partial(orig, dw, src@, sw, x as int, y as int, bp, i + 1, 0));
        }
        i = i + 1;
    }
}

/// RGBA image stored in main memory.
#[derive(Debug)]
pub struct Image {
    width: u32,
    height: u32,
    data: Vec<u8>,
}

impl Clone for Image {
    fn clone(&self) -> (copy: Self)
        ensures
            copy@ == self@,
    {
        proof {
            use_type_invariant(self);
        }
        let data = self.data.clone();
        assert(data@ =~= self.data@);
        Image { width: self.width, height: self.height, data }
    }
}

impl View for Image {
    type V = ImageModel;

    closed spec fn view(&self) -> ImageModel {
        ImageModel { width: self.width, height: self.height, data: self.data@ }
    }
}

impl Image {
    /// Every image holds exactly four bytes per pixel.
    #[verifier::type_invariant]
    closed spec fn holds_all_pixels(self) -> bool {
        self.data@.len() == rgba_len(self.width as int, self.height as int)
    }

    /// Creates an image with the given dimensions and data, which must hold
    /// exactly `width * height * 4` bytes.
    pub fn new(width: u32, height: u32, data: Vec<u8>) -> (image: Self)
        requires
            rgba_len(width as int, height as int) == data@.len(),
        ensures
            image@ == (ImageModel { width, height, data: data@ }),
    {
        Image { width, height, data }
    }

    /// Returns the width of the image.
    #[inline]
    pub fn width(&self) -> (w: u32)
        ensures
            w == self@.width,
    {
        self.width
    }

    /// Returns the height of the image.
    #[inline]
    pub fn height(&self) -> (h: u32)
        ensures
            h == self@.height,
    {
        self.height
    }

    /// Returns the image data as a byte slice.
    #[inline]
    pub fn data(&self) -> (d: &[u8])
        ensures
            d@ == self@.data,
            d@.len() == rgba_len(self@.width as int, self@.height as int),
    {
        proof {
            use_type_invariant(self);
        }
        self.data.as_slice()
    }

    /// Consumes the image and returns the underlying data.
    #[inline]
    pub fn into_data(self) -> (d: Vec<u8>)
        ensures
            d@ == self@.data,
            d@.len() == rgba_len(self@.width as int, self@.height as int),
    {
        proof {
            use_type_invariant(&self);
        }
        self.data
    }
}

} // verus!
