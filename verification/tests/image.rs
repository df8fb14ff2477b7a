use anchor::graphics::Image;

#[test]
fn image_keeps_its_dimensions_and_data() {
    let data: Vec<u8> = (0..24).collect();
    let image = Image::new(3, 2, data.clone());
    assert_eq!(image.width(), 3);
    assert_eq!(image.height(), 2);
    assert_eq!(image.data(), &data[..]);
    let copy = image.clone();
    assert_eq!(copy.into_data(), data);
}

#[test]
fn empty_image_is_allowed() {
    let image = Image::new(0, 5, Vec::new());
    assert_eq!(image.width(), 0);
    assert_eq!(image.height(), 5);
    assert!(image.data().is_empty());
}
