use hypnagogic_core::util::color::{fill_image_color, Color};
use hypnagogic_core::util::icon_ops::{colors_in_image, dedupe_images, dedupe_plan};
use hypnagogic_core::util::raster::{copy_frames, copy_image, crop_clamped};
use image::{DynamicImage, GenericImage, GenericImageView, GrayImage, Luma, Rgba, RgbaImage};

fn gradient(width: u32, height: u32) -> DynamicImage {
    let mut image = RgbaImage::new(width, height);
    for y in 0..height {
        for x in 0..width {
            image.put_pixel(x, y, Rgba([x as u8, y as u8, 7, 255]));
        }
    }
    DynamicImage::ImageRgba8(image)
}

fn plain(width: u32, height: u32, color: [u8; 4]) -> DynamicImage {
    DynamicImage::ImageRgba8(RgbaImage::from_pixel(width, height, Rgba(color)))
}

#[test]
fn a_clamped_crop_is_cut_off_at_the_edges() {
    let source = gradient(10, 8);
    let part = crop_clamped(&source, 6, 5, 10, 10);
    assert_eq!(part.dimensions(), (4, 3));
    assert_eq!(part.get_pixel(3, 2), Rgba([9, 7, 7, 255]));
    assert_eq!(part.get_pixel(0, 0), Rgba([6, 5, 7, 255]));
    assert_eq!(crop_clamped(&source, 20, 20, 5, 5).dimensions(), (0, 0));
    let inner = crop_clamped(&source, 1, 2, 3, 4);
    assert_eq!(inner.dimensions(), (3, 4));
    for y in 0..4 {
        for x in 0..3 {
            assert_eq!(inner.get_pixel(x, y), Rgba([x as u8 + 1, y as u8 + 2, 7, 255]));
        }
    }
    assert_eq!(crop_clamped(&DynamicImage::new_rgba8(4, 0), 1, 0, 2, 2).height(), 0);
}

#[test]
fn a_copy_has_the_same_pixels() {
    let source = gradient(5, 4);
    let mut copy = copy_image(&source);
    assert_eq!(copy, source);
    copy.put_pixel(1, 2, Rgba([0, 0, 0, 0]));
    assert_eq!(source.get_pixel(1, 2), Rgba([1, 2, 7, 255]));
    assert_eq!(copy.get_pixel(1, 2), Rgba([0, 0, 0, 0]));
    let frames = vec![gradient(2, 2), plain(1, 1, [5, 5, 5, 5])];
    let copies = copy_frames(&frames);
    assert_eq!(copies, frames);
}

#[test]
fn filling_recolours_what_is_not_transparent() {
    let mut image = RgbaImage::new(3, 1);
    image.put_pixel(0, 0, Rgba([1, 2, 3, 255]));
    image.put_pixel(1, 0, Rgba([1, 2, 3, 0]));
    image.put_pixel(2, 0, Rgba([1, 2, 3, 1]));
    let mut image = DynamicImage::ImageRgba8(image);
    fill_image_color(&mut image, Color::new(9, 8, 7, 6));
    assert_eq!(image.get_pixel(0, 0), Rgba([9, 8, 7, 6]));
    assert_eq!(image.get_pixel(1, 0), Rgba([1, 2, 3, 0]));
    assert_eq!(image.get_pixel(2, 0), Rgba([9, 8, 7, 6]));
}

#[test]
fn filling_turns_an_image_into_rgba() {
    let mut gray = GrayImage::new(2, 1);
    gray.put_pixel(0, 0, Luma([40]));
    gray.put_pixel(1, 0, Luma([200]));
    let mut image = DynamicImage::ImageLuma8(gray);
    fill_image_color(&mut image, Color::new(1, 2, 3, 4));
    assert!(image.as_rgba8().is_some());
    assert_eq!(image.dimensions(), (2, 1));
    assert_eq!(image.get_pixel(0, 0), Rgba([1, 2, 3, 4]));
    assert_eq!(image.get_pixel(1, 0), Rgba([1, 2, 3, 4]));
}

#[test]
fn the_colours_of_an_image_come_in_the_order_they_are_met() {
    let mut image = RgbaImage::new(2, 2);
    image.put_pixel(0, 0, Rgba([1, 1, 1, 255]));
    image.put_pixel(1, 0, Rgba([2, 2, 2, 255]));
    image.put_pixel(0, 1, Rgba([1, 1, 1, 255]));
    image.put_pixel(1, 1, Rgba([3, 3, 3, 255]));
    let colors = colors_in_image(&DynamicImage::ImageRgba8(image));
    assert_eq!(
        colors,
        vec![Color::new_rgb(1, 1, 1), Color::new_rgb(2, 2, 2), Color::new_rgb(3, 3, 3)]
    );
    assert!(colors_in_image(&DynamicImage::new_rgba8(0, 0)).is_empty());
}

#[test]
fn equal_frames_run_together() {
    let a = plain(1, 1, [1, 1, 1, 255]);
    let b = plain(1, 1, [2, 2, 2, 255]);
    let frames =
        vec![a.clone(), a.clone(), b.clone(), a.clone(), a.clone(), a.clone(), b.clone()];
    assert_eq!(dedupe_plan(&frames), vec![2, 1, 3, 1]);
    assert_eq!(dedupe_plan(&vec![a.clone()]), vec![1]);
    assert_eq!(dedupe_plan(&vec![]), vec![]);
    assert_eq!(dedupe_plan(&vec![a.clone(), b.clone()]), vec![1, 1]);
}

#[test]
fn the_first_frame_of_each_run_is_kept() {
    let a = plain(1, 1, [1, 1, 1, 255]);
    let b = plain(1, 1, [2, 2, 2, 255]);
    let c = plain(1, 1, [3, 3, 3, 255]);
    let frames = vec![a.clone(), a.clone(), b.clone(), c.clone(), c.clone(), a.clone()];
    let (kept, runs) = dedupe_images(&frames);
    assert_eq!(runs, vec![2, 1, 2, 1]);
    assert_eq!(kept, vec![a.clone(), b.clone(), c.clone(), a.clone()]);
    assert_eq!(runs.iter().sum::<usize>(), frames.len());
    let (none, no_runs) = dedupe_images(&vec![]);
    assert!(none.is_empty() && no_runs.is_empty());
    let (one, one_run) = dedupe_images(&vec![b.clone(), b.clone(), b.clone()]);
    assert_eq!((one, one_run), (vec![b.clone()], vec![3]));
}
