//! Image files: which format a file extension names, and decoding a file's
//! bytes into an RGBA image.

use vstd::prelude::*;
use crate::graphics::image::{rgba_len, Image, ImageModel};
use image::ImageFormat;

verus! {

/// The image file formats, as their file extensions name them.
#[derive(Clone, Copy, PartialEq, Eq, Debug)]
pub enum ImageFileFormat {
    Png,
    Jpeg,
    Gif,
    WebP,
    Pnm,
    Tiff,
    Tga,
    Dds,
    Bmp,
    Ico,
    Hdr,
    OpenExr,
    Farbfeld,
    Avif,
    Qoi,
}

/// A byte with ASCII upper-case letters made lower-case.
pub open spec fn ascii_lower(b: u8) -> u8 {
    if 65 <= b <= 90 {
        (b + 32) as u8
    } else {
        b
    }
}

/// The format that a file extension names, ignoring ASCII case (the bytes
/// spell, in order: avif; jpg, jpeg; png; gif; webp; tif, tiff; tga; dds;
/// bmp; ico; hdr; exr; pbm, pam, ppm, pgm; ff, farbfeld; qoi): `None` for any
/// other extension.
pub open spec fn extension_format(ext: Seq<u8>) -> Option<ImageFileFormat> {
    let e = ext.map_values(|b: u8| ascii_lower(b));
    if e == seq![97u8, 118, 105, 102] {
        Some(ImageFileFormat::Avif)
    } else if e == seq![106u8, 112, 103] || e == seq![106u8, 112, 101, 103] {
        Some(ImageFileFormat::Jpeg)
    } else if e == seq![112u8, 110, 103] {
        Some(ImageFileFormat::Png)
    } else if e == seq![103u8, 105, 102] {
        Some(ImageFileFormat::Gif)
    } else if e == seq![119u8, 101, 98, 112] {
        Some(ImageFileFormat::WebP)
    } else if e == seq![116u8, 105, 102] || e == seq![116u8, 105, 102, 102] {
        Some(ImageFileFormat::Tiff)
    } else if e == seq![116u8, 103, 97] {
        Some(ImageFileFormat::Tga)
    } else if e == seq![100u8, 100, 115] {
        Some(ImageFileFormat::Dds)
    } else if e == seq![98u8, 109, 112] {
        Some(ImageFileFormat::Bmp)
    } else if e == seq![105u8, 99, 111] {
        Some(ImageFileFormat::Ico)
    } else if e == seq![104u8, 100, 114] {
        Some(ImageFileFormat::Hdr)
    } else if e == seq![101u8, 120, 114] {
        Some(ImageFileFormat::OpenExr)
    } else if e == seq![112u8, 98, 109] || e == seq![112u8, 97, 109] || e == seq![112u8, 112, 109]
        || e == seq![112u8, 103, 109] {
        Some(ImageFileFormat::Pnm)
    } else if e == seq![102u8, 102] || e == seq![102u8, 97, 114, 98, 102, 101, 108, 100] {
        Some(ImageFileFormat::Farbfeld)
    } else if e == seq![113u8, 111, 105] {
        Some(ImageFileFormat::Qoi)
    } else {
        None
    }
}

/// Whether `lowered` is exactly `word`.
fn is_word(lowered: &Vec<u8>, word: &[u8]) -> (same: bool)
    ensures
        same == (lowered@ == word@),
{
    if lowered.len() != word.len() {
        return false;
    }
    let mut i: usize = 0;
    while i < word.len()
        invariant
            lowered@.len() == word@.len(),
            i <= word@.len(),
            forall|j: int| 0 <= j < i ==> lowered@[j] == word@[j],
        decreases word@.len() - i,
    {
        if lowered[i] != word[i] {
            return false;
        }
        i = i + 1;
    }
    assert(lowered@ =~= word@);
    true
}

/// The format that the file extension `ext` (its bytes) names, ignoring
/// ASCII case, as file paths choose how to decode an image.
pub fn format_from_extension(ext: &[u8]) -> (format: Option<ImageFileFormat>)
    ensures
        format == extension_format(ext@),
{
    let mut e: Vec<u8> = Vec::new();
    let mut i: usize = 0;
    while i < ext.len()
        invariant
            i <= ext@.len(),
            e@ == ext@.take(i as int).map_values(|b: u8| ascii_lower(b)),
        decreases ext@.len() - i,
    {
        let b = ext[i];
        let lower = if 65 <= b && b <= 90 {
            b + 32
        } else {
            b
        };
        e.push(lower);
        i = i + 1;
        assert(e@ =~= ext@.take(i as int).map_values(|b: u8| ascii_lower(b)));
    }
    assert(ext@.take(ext@.len() as int) =~= ext@);
    if is_word(&e, &[97u8, 118, 105, 102]) {
        Some(ImageFileFormat::Avif)
    } else if is_word(&e, &[106u8, 112, 103]) || is_word(&e, &[106u8, 112, 101, 103]) {
        Some(ImageFileFormat::Jpeg)
    } else if is_word(&e, &[112u8, 110, 103]) {
        Some(ImageFileFormat::Png)
    } else if is_word(&e, &[103u8, 105, 102]) {
        Some(ImageFileFormat::Gif)
    } else if is_word(&e, &[119u8, 101, 98, 112]) {
        Some(ImageFileFormat::WebP)
    } else if is_word(&e, &[116u8, 105, 102]) || is_word(&e, &[116u8, 105, 102, 102]) {
        Some(ImageFileFormat::Tiff)
    } else if is_word(&e, &[116u8, 103, 97]) {
        Some(ImageFileFormat::Tga)
    } else if is_word(&e, &[100u8, 100, 115]) {
        Some(ImageFileFormat::Dds)
    } else if is_word(&e, &[98u8, 109, 112]) {
        Some(ImageFileFormat::Bmp)
    } else if is_word(&e, &[105u8, 99, 111]) {
        Some(ImageFileFormat::Ico)
    } else if is_word(&e, &[104u8, 100, 114]) {
        Some(ImageFileFormat::Hdr)
    } else if is_word(&e, &[101u8, 120, 114]) {
        Some(ImageFileFormat::OpenExr)
    } else if is_word(&e, &[112u8, 98, 109]) || is_word(&e, &[112u8, 97, 109]) || is_word(
        &e,
        &[112u8, 112, 109],
    ) || is_word(&e, &[112u8, 103, 109]) {
        Some(ImageFileFormat::Pnm)
    } else if is_word(&e, &[102u8, 102]) || is_word(
        &e,
        &[102u8, 97, 114, 98, 102, 101, 108, 100],
    ) {
        Some(ImageFileFormat::Farbfeld)
    } else if is_word(&e, &[113u8, 111, 105]) {
        Some(ImageFileFormat::Qoi)
    } else {
        None
    }
}

/// What the `image` crate decodes `bytes` into, read as an image of
/// `format` and converted to RGBA: its width, its height and its pixel bytes;
/// `None` where it fails (including formats this build does not decode).
pub uninterp spec fn image_decode(bytes: Seq<u8>, format: ImageFileFormat) -> Option<(u32, u32, Seq<u8>)>;

/// A decoded image as plain values.
pub open spec fn decoded_view(decoded: Option<(u32, u32, Vec<u8>)>) -> Option<(u32, u32, Seq<u8>)> {
    match decoded {
        Some((w, h, data)) => Some((w, h, data@)),
        None => None,
    }
}

/// `image::load_from_memory_with_format`, then `DynamicImage::into_rgba8`:
/// decodes `bytes` as an image of `format` and converts it to RGBA. The
/// result depends on the bytes and the format alone.
#[verifier::external_body]
fn decode_rgba(bytes: &[u8], format: ImageFileFormat) -> (decoded: Option<(u32, u32, Vec<u8>)>)
    ensures
        decoded_view(decoded) == image_decode(bytes@, format),
{
    let format = match format {
        ImageFileFormat::Png => ImageFormat::Png, ImageFileFormat::Jpeg => ImageFormat::Jpeg,
        ImageFileFormat::Gif => ImageFormat::Gif, ImageFileFormat::WebP => ImageFormat::WebP,
        ImageFileFormat::Pnm => ImageFormat::Pnm, ImageFileFormat::Tiff => ImageFormat::Tiff,
        ImageFileFormat::Tga => ImageFormat::Tga, ImageFileFormat::Dds => ImageFormat::Dds,
        ImageFileFormat::Bmp => ImageFormat::Bmp, ImageFileFormat::Ico => ImageFormat::Ico,
        ImageFileFormat::Hdr => ImageFormat::Hdr, ImageFileFormat::OpenExr => ImageFormat::OpenExr,
        ImageFileFormat::Farbfeld => ImageFormat::Farbfeld, ImageFileFormat::Avif => ImageFormat::Avif,
        ImageFileFormat::Qoi => ImageFormat::Qoi,
    };
    match image::load_from_memory_with_format(bytes, format) {
        Ok(image) => Some((image.width(), image.height(), image.into_rgba8().into_raw())),
        Err(_) => None,
    }
}

/// Why an image file could not be decoded.
#[derive(Clone, Copy, PartialEq, Eq, Debug)]
pub enum ImageDecodeError {
    /// The file's extension names no image format.
    UnknownFormat,
    /// The bytes are not an image of the format (or this build does not
    /// decode it).
    Undecodable,
}

/// Decodes the bytes of an image file of the given format into an RGBA
/// image: it succeeds exactly when the `image` crate decodes them into four
/// bytes per pixel, and then holds what it decoded.
pub fn decode(bytes: &[u8], format: ImageFileFormat) -> (image: Result<Image, ImageDecodeError>)
    ensures
        image is Ok <==> (image_decode(bytes@, format) matches Some((w, h, data)) && data.len()
            == rgba_len(w as int, h as int)),
        image matches Ok(img) ==> image_decode(bytes@, format) == Some((img@.width, img@.height, img@.data)),
        image matches Err(e) ==> e == ImageDecodeError::Undecodable,
{
    match decode_rgba(bytes, format) {
        Some((width, height, data)) => {
            assert((width as int) * (height as int) <= 0xffff_ffffint * 0xffff_ffffint)
                by (nonlinear_arith)
                requires
                    width <= 0xffff_ffffint,
                    height <= 0xffff_ffffint,
            ;
            let byte_count = (width as u128) * (height as u128) * 4;
            if byte_count == data.len() as u128 {
                Ok(Image::new(width, height, data))
            } else {
                Err(ImageDecodeError::Undecodable)
            }
        },
        None => Err(ImageDecodeError::Undecodable),
    }
}

/// Decodes an image file from its bytes, choosing the format from its
/// extension (`None` when it has none) as file paths do.
pub fn decode_file(extension: Option<&[u8]>, bytes: &[u8]) -> (image: Result<Image, ImageDecodeError>)
    ensures
        match extension {
            Some(ext) => match extension_format(ext@) {
                Some(format) => {
                    &&& image is Ok <==> (image_decode(bytes@, format) matches Some((w, h, data))
                        && data.len() == rgba_len(w as int, h as int))
                    &&& image matches Ok(img) ==> image_decode(bytes@, format) == Some(
                        (img@.width, img@.height, img@.data),
                    )
                    &&& image matches Err(e) ==> e == ImageDecodeError::Undecodable
                },
                None => image == Err::<Image, ImageDecodeError>(ImageDecodeError::UnknownFormat),
            },
            None => image == Err::<Image, ImageDecodeError>(ImageDecodeError::UnknownFormat),
        },
{
    let format = match extension {
        Some(ext) => format_from_extension(ext),
        None => None,
    };
    match format {
        Some(format) => decode(bytes, format),
        None => Err(ImageDecodeError::UnknownFormat),
    }
}

} // verus!
