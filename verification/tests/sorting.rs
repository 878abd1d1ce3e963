use pico::icon::sort_by_resolution;
use pico::image::Image;

fn image_with_tag(width: u32, height: u32, tag: u8) -> Image {
    Image { width, height, palette_size: None, bits_per_pixel: 32, data: vec![tag] }
}

#[test]
fn sort_stability() {
    // Resolutions 100, 100, 50, 200; the two 100s are distinguished by
    // their payload tags.
    let mut images = vec![
        image_with_tag(10, 10, 1),
        image_with_tag(4, 25, 2),
        image_with_tag(5, 10, 3),
        image_with_tag(20, 10, 4),
    ];
    sort_by_resolution(&mut images);
    let order: Vec<u8> = images.iter().map(|image| image.data[0]).collect();
    assert_eq!(order, vec![4, 1, 2, 3]);
    let resolutions: Vec<u64> = images.iter().map(|image| image.resolution()).collect();
    assert_eq!(resolutions, vec![200, 100, 100, 50]);
}

#[test]
fn sort_empty() {
    let mut images: Vec<Image> = Vec::new();
    sort_by_resolution(&mut images);
    assert!(images.is_empty());
}

#[test]
fn sort_single() {
    let mut images = vec![image_with_tag(3, 3, 7)];
    sort_by_resolution(&mut images);
    assert_eq!(images.len(), 1);
    assert_eq!(images[0].data, vec![7]);
}

#[test]
fn sort_all_equal_keeps_order() {
    let mut images = vec![
        image_with_tag(6, 6, 1),
        image_with_tag(4, 9, 2),
        image_with_tag(9, 4, 3),
        image_with_tag(36, 1, 4),
    ];
    sort_by_resolution(&mut images);
    let order: Vec<u8> = images.iter().map(|image| image.data[0]).collect();
    assert_eq!(order, vec![1, 2, 3, 4]);
}

#[test]
fn sort_descending_input_unchanged() {
    let mut images = vec![
        image_with_tag(4, 4, 1),
        image_with_tag(3, 3, 2),
        image_with_tag(2, 2, 3),
    ];
    sort_by_resolution(&mut images);
    let order: Vec<u8> = images.iter().map(|image| image.data[0]).collect();
    assert_eq!(order, vec![1, 2, 3]);
}

#[test]
fn sort_ascending_input_reversed() {
    let mut images = vec![
        image_with_tag(1, 1, 1),
        image_with_tag(2, 2, 2),
        image_with_tag(3, 3, 3),
    ];
    sort_by_resolution(&mut images);
    let order: Vec<u8> = images.iter().map(|image| image.data[0]).collect();
    assert_eq!(order, vec![3, 2, 1]);
}
