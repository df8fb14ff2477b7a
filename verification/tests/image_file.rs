use anchor::graphics::image_file::{decode, decode_file, format_from_extension, ImageDecodeError, ImageFileFormat};
use std::io::Cursor;

fn png_bytes(width: u32, height: u32, data: Vec<u8>) -> Vec<u8> {
    let image = image::RgbaImage::from_raw(width, height, data).expect("pixel count");
    let mut bytes = Cursor::new(Vec::new());
    image.write_to(&mut bytes, image::ImageOutputFormat::Png).expect("png encoding");
    bytes.into_inner()
}

#[test]
fn extensions_name_formats_ignoring_case() {
    assert_eq!(format_from_extension(b"png"), Some(ImageFileFormat::Png));
    assert_eq!(format_from_extension(b"PNG"), Some(ImageFileFormat::Png));
    assert_eq!(format_from_extension(b"Jpeg"), Some(ImageFileFormat::Jpeg));
    assert_eq!(format_from_extension(b"jpg"), Some(ImageFileFormat::Jpeg));
    assert_eq!(format_from_extension(b"tif"), Some(ImageFileFormat::Tiff));
    assert_eq!(format_from_extension(b"pgm"), Some(ImageFileFormat::Pnm));
    assert_eq!(format_from_extension(b"farbfeld"), Some(ImageFileFormat::Farbfeld));
    assert_eq!(format_from_extension(b"exr"), Some(ImageFileFormat::OpenExr));
    assert_eq!(format_from_extension(b"txt"), None);
    assert_eq!(format_from_extension(b""), None);
    assert_eq!(format_from_extension(b"pngx"), None);
}

#[test]
fn png_bytes_decode_to_their_pixels() {
    let pixels: Vec<u8> = (0..24).collect();
    let bytes = png_bytes(3, 2, pixels.clone());
    let image = decode(&bytes, ImageFileFormat::Png).expect("decodes");
    assert_eq!((image.width(), image.height()), (3, 2));
    assert_eq!(image.data(), &pixels[..]);
    let image = decode_file(Some(&b"Png"[..]), &bytes).expect("decodes");
    assert_eq!(image.into_data(), pixels);
}

#[test]
fn undecodable_bytes_and_unknown_extensions_fail() {
    assert_eq!(decode(&[1, 2, 3], ImageFileFormat::Png).err(), Some(ImageDecodeError::Undecodable));
    let bytes = png_bytes(1, 1, vec![1, 2, 3, 4]);
    assert_eq!(decode_file(Some(&b"txt"[..]), &bytes).err(), Some(ImageDecodeError::UnknownFormat));
    assert_eq!(decode_file(None, &bytes).err(), Some(ImageDecodeError::UnknownFormat));
}
