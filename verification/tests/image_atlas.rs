use anchor::graphics::image_atlas::{ImageAtlas, ImageAtlasBuilder};
use anchor::graphics::{Image, PixelBounds};

fn solid(width: u32, height: u32, value: u8) -> Image {
    Image::new(width, height, vec![value; (width * height * 4) as usize])
}

#[test]
fn add_image_returns_consecutive_indexes() {
    let mut builder = ImageAtlas::builder();
    assert_eq!(builder.add_image(solid(1, 1, 1)), 1);
    assert_eq!(builder.add_image(solid(2, 2, 2)), 2);
    assert_eq!(builder.add_image(solid(3, 1, 3)), 3);
}

#[test]
fn empty_builder_builds_single_transparent_pixel() {
    let atlas = ImageAtlasBuilder::new().build();
    assert_eq!(atlas.width(), 1);
    assert_eq!(atlas.height(), 1);
    assert_eq!(atlas.image().data(), &[0u8, 0, 0, 0][..]);
    assert_eq!(atlas.bounds(), &[PixelBounds::new(0, 0, 1, 1)][..]);
    assert_eq!(atlas.get_bounds(0), Some(&PixelBounds::new(0, 0, 1, 1)));
    assert_eq!(atlas.get_bounds(1), None);
}

#[test]
fn single_image_atlas_is_the_image() {
    let mut builder = ImageAtlas::builder();
    let index = builder.add_image(solid(3, 2, 7));
    let atlas = builder.build();
    assert_eq!((atlas.width(), atlas.height()), (3, 2));
    assert_eq!(atlas.get_bounds(0), Some(&PixelBounds::new(0, 0, 3, 2)));
    assert_eq!(atlas.get_bounds(index), Some(&PixelBounds::new(0, 0, 3, 2)));
    assert!(atlas.image().data().iter().all(|&b| b == 7));
}

#[test]
fn smaller_image_goes_right_of_larger() {
    let mut builder = ImageAtlas::builder();
    let a = builder.add_image(solid(4, 4, 1));
    let b = builder.add_image(solid(2, 2, 2));
    let atlas = builder.build();
    assert_eq!((atlas.width(), atlas.height()), (6, 4));
    assert_eq!(atlas.bounds()[0], PixelBounds::new(0, 0, 6, 4));
    assert_eq!(atlas.bounds()[a], PixelBounds::new(0, 0, 4, 4));
    assert_eq!(atlas.bounds()[b], PixelBounds::new(4, 0, 2, 2));
    let data = atlas.image().data();
    let pixel = |x: usize, y: usize| data[(y * 6 + x) * 4];
    assert_eq!(pixel(0, 0), 1);
    assert_eq!(pixel(3, 3), 1);
    assert_eq!(pixel(4, 0), 2);
    assert_eq!(pixel(5, 1), 2);
    assert_eq!(pixel(4, 2), 0);
    assert_eq!(pixel(5, 3), 0);
}

#[test]
fn larger_image_added_later_is_packed_first() {
    let mut builder = ImageAtlas::builder();
    let small = builder.add_image(solid(2, 2, 2));
    let large = builder.add_image(solid(4, 4, 1));
    let atlas = builder.build();
    assert_eq!(atlas.bounds()[large], PixelBounds::new(0, 0, 4, 4));
    assert_eq!(atlas.bounds()[small], PixelBounds::new(4, 0, 2, 2));
}

#[test]
fn free_space_right_of_a_sprite_keeps_full_height() {
    // The space right of a placed image keeps the node's full height, so
    // two later images can be given overlapping rectangles.
    let mut builder = ImageAtlas::builder();
    let a = builder.add_image(solid(10, 10, 1));
    let b = builder.add_image(solid(10, 2, 2));
    let c = builder.add_image(solid(2, 2, 3));
    let d = builder.add_image(solid(5, 5, 4));
    let e = builder.add_image(solid(8, 8, 5));
    let atlas = builder.build();
    assert_eq!((atlas.width(), atlas.height()), (20, 10));
    assert_eq!(atlas.bounds()[a], PixelBounds::new(0, 0, 10, 10));
    assert_eq!(atlas.bounds()[b], PixelBounds::new(10, 0, 10, 2));
    assert_eq!(atlas.bounds()[c], PixelBounds::new(10, 2, 2, 2));
    assert_eq!(atlas.bounds()[d], PixelBounds::new(10, 4, 5, 5));
    assert_eq!(atlas.bounds()[e], PixelBounds::new(12, 2, 8, 8));
}

#[test]
fn packing_that_finds_no_room_fails() {
    let mut builder = ImageAtlas::builder();
    builder.add_image(solid(10, 2, 1));
    builder.add_image(solid(2, 10, 2));
    assert!(builder.try_build().is_none());
}

#[test]
fn try_build_agrees_with_build() {
    let mut builder = ImageAtlas::builder();
    builder.add_image(solid(4, 4, 1));
    builder.add_image(solid(3, 3, 2));
    builder.add_image(solid(2, 2, 3));
    let tried = builder.try_build().expect("packs");
    let built = builder.build();
    assert_eq!(tried.bounds(), built.bounds());
    assert_eq!(tried.image().data(), built.image().data());
    for b in built.bounds().iter().skip(1) {
        assert!(b.x + b.w <= built.width());
        assert!(b.y + b.h <= built.height());
    }
}

#[test]
fn cloned_atlas_is_equal() {
    let mut builder = ImageAtlas::builder();
    builder.add_image(solid(2, 3, 9));
    let atlas = builder.build();
    let copy = atlas.clone();
    assert_eq!(copy.bounds(), atlas.bounds());
    assert_eq!(copy.image().data(), atlas.image().data());
}

#[test]
fn each_image_reads_back_at_its_rectangle() {
    let mut builder = ImageAtlas::builder();
    let images = [(6, 6, 10u8), (2, 5, 20u8), (3, 3, 30u8), (1, 2, 40u8)];
    for &(w, h, v) in images.iter() {
        let data: Vec<u8> = (0..w * h * 4).map(|k| v + (k % 7) as u8).collect();
        builder.add_image(Image::new(w, h, data));
    }
    let atlas = builder.try_build().expect("these images pack");
    assert_eq!((atlas.width(), atlas.height()), (11, 6));
    let width = atlas.width() as usize;
    let data = atlas.image().data();
    for (i, &(w, h, v)) in images.iter().enumerate() {
        let b = atlas.get_bounds(i + 1).expect("bounds");
        assert_eq!((b.w, b.h), (w, h));
        for row in 0..h as usize {
            for col in 0..(w * 4) as usize {
                let at = (b.y as usize + row) * width * 4 + b.x as usize * 4 + col;
                let expected = v + ((row * w as usize * 4 + col) % 7) as u8;
                assert_eq!(data[at], expected);
            }
        }
    }
}

#[test]
fn overlapping_images_are_painted_in_leaf_order() {
    // Packing these sizes makes the 8x8 image and the 5x5 image overlap;
    // the 5x5 one is copied last, so it shows where they overlap.
    let mut builder = ImageAtlas::builder();
    for (i, &(w, h)) in [(10u32, 10u32), (10, 2), (2, 2), (5, 5), (8, 8)].iter().enumerate() {
        builder.add_image(solid(w, h, i as u8 + 1));
    }
    let atlas = builder.try_build().expect("these images pack");
    assert_eq!((atlas.width(), atlas.height()), (20, 10));
    assert_eq!(*atlas.get_bounds(4).unwrap(), PixelBounds::new(10, 4, 5, 5));
    assert_eq!(*atlas.get_bounds(5).unwrap(), PixelBounds::new(12, 2, 8, 8));
    let data = atlas.image().data();
    let at = |x: usize, y: usize| data[(y * 20 + x) * 4];
    assert_eq!(at(12, 4), 4);
    assert_eq!(at(16, 4), 5);
    assert_eq!(at(12, 2), 5);
}

#[test]
fn longest_image_is_packed_first_at_the_origin() {
    let mut builder = ImageAtlas::builder();
    builder.add_image(solid(1, 1, 1));
    builder.add_image(solid(3, 3, 2));
    builder.add_image(solid(5, 5, 3));
    builder.add_image(solid(2, 2, 4));
    let atlas = builder.try_build().expect("these images pack");
    assert_eq!((atlas.width(), atlas.height()), (10, 5));
    assert_eq!(*atlas.get_bounds(3).unwrap(), PixelBounds::new(0, 0, 5, 5));
    assert_eq!(*atlas.get_bounds(2).unwrap(), PixelBounds::new(7, 0, 3, 3));
    assert_eq!(*atlas.get_bounds(1).unwrap(), PixelBounds::new(5, 2, 1, 1));
    assert_eq!(*atlas.get_bounds(4).unwrap(), PixelBounds::new(5, 0, 2, 2));
}

#[test]
fn atlas_size_lies_between_largest_image_and_sum() {
    let sizes = [(6u32, 6u32), (2, 5), (3, 3), (1, 2)];
    let mut builder = ImageAtlas::builder();
    for &(w, h) in sizes.iter() {
        builder.add_image(solid(w, h, 1));
    }
    let atlas = builder.try_build().expect("these images pack");
    let max_w = sizes.iter().map(|s| s.0).max().unwrap();
    let max_h = sizes.iter().map(|s| s.1).max().unwrap();
    let sum_w: u32 = sizes.iter().map(|s| s.0).sum();
    let sum_h: u32 = sizes.iter().map(|s| s.1).sum();
    assert!(max_w <= atlas.width() && atlas.width() <= sum_w);
    assert!(max_h <= atlas.height() && atlas.height() <= sum_h);
    assert_eq!((atlas.width(), atlas.height()), (11, 6));
}

#[test]
fn new_keeps_dimensions_and_pixels() {
    let image = Image::new(3, 1, vec![9; 12]);
    assert_eq!((image.width(), image.height(), image.data().len()), (3, 1, 12));
}

#[test]
fn into_data_gives_back_the_pixels() {
    let data: Vec<u8> = (0..8).collect();
    assert_eq!(Image::new(2, 1, data.clone()).into_data(), data);
}

#[test]
fn atlas_size_matches_its_first_rectangle_and_builds_agree() {
    let mut builder = ImageAtlas::builder();
    builder.add_image(solid(4, 4, 1));
    builder.add_image(solid(3, 3, 2));
    let first = builder.build();
    let second = builder.build();
    assert_eq!(first.bounds()[0], PixelBounds::new(0, 0, first.width(), first.height()));
    assert_eq!(first.bounds(), second.bounds());
    assert_eq!(first.image().data(), second.image().data());
    assert_eq!(first.bounds().len(), 3);
    assert_eq!(first.get_bounds(3), None);
}
