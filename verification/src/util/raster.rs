use image::DynamicImage;
use vstd::prelude::*;

use crate::util::color::Color;

verus! {

/// An image of the `image` crate, of whichever pixel format.
#[verifier::external_type_specification]
#[verifier::external_body]
pub struct ExDynamicImage(image::DynamicImage);

/// The pixels of an image, row by row from the top and from the left within
/// a row, each as `GenericImageView::get_pixel` hands it out.
pub uninterp spec fn image_rows(image: DynamicImage) -> Seq<Seq<Color>>;

/// Whether the image stores its pixels as four channels of eight bits, so
/// that a pixel put into it is the pixel that is read back.
pub uninterp spec fn image_is_rgba8(image: DynamicImage) -> bool;

/// What `Pixel::blend` leaves of a pixel when another is laid over it.
pub uninterp spec fn blended(below: Color, above: Color) -> Color;

/// Each of the `height` rows holds `width` pixels.
pub open spec fn has_size(rows: Seq<Seq<Color>>, width: int, height: int) -> bool {
    rows.len() == height && forall|y: int| 0 <= y < height ==> (#[trigger] rows[y]).len() == width
}

/// The rectangle lies within the rows.
pub open spec fn holds_rect(rows: Seq<Seq<Color>>, x: int, y: int, width: int, height: int) -> bool {
    &&& 0 <= x && 0 <= y && 0 <= width && 0 <= height
    &&& y + height <= rows.len()
    &&& forall|row: int| 0 <= row < rows.len() ==> x + width <= (#[trigger] rows[row]).len()
}

/// The pixels of the rectangle.
pub open spec fn cropped(rows: Seq<Seq<Color>>, x: int, y: int, width: int, height: int) -> Seq<
    Seq<Color>,
> {
    Seq::new(height as nat, |row: int| Seq::new(width as nat, |column: int| rows[y + row][x + column]))
}

/// Rows of the given size in which every pixel is `color`.
pub open spec fn filled(color: Color, width: int, height: int) -> Seq<Seq<Color>> {
    Seq::new(height as nat, |row: int| Seq::new(width as nat, |column: int| color))
}

/// The pixel without colour and without opacity.
pub open spec fn clear() -> Color {
    Color { red: 0, green: 0, blue: 0, alpha: 0 }
}

/// Whether `above`, laid down with its corner at the origin, has a pixel
/// at the place.
pub open spec fn covers(above: Seq<Seq<Color>>, column: int, row: int) -> bool {
    0 <= row < above.len() && 0 <= column < above[row].len()
}

/// `below` with the pixels of `above` in place of its own wherever `above`,
/// laid down with its corner at `(x, y)`, reaches. What falls outside
/// `below` is lost.
pub open spec fn replaced(below: Seq<Seq<Color>>, above: Seq<Seq<Color>>, x: int, y: int) -> Seq<
    Seq<Color>,
> {
    Seq::new(
        below.len(),
        |row: int|
            Seq::new(
                below[row].len(),
                |column: int|
                    if covers(above, column - x, row - y) {
                        above[row - y][column - x]
                    } else {
                        below[row][column]
                    },
            ),
    )
}

/// `below` with the pixels of `above` blended over its own wherever `above`,
/// laid down with its corner at `(x, y)`, reaches.
pub open spec fn overlaid(below: Seq<Seq<Color>>, above: Seq<Seq<Color>>, x: int, y: int) -> Seq<
    Seq<Color>,
> {
    Seq::new(
        below.len(),
        |row: int|
            Seq::new(
                below[row].len(),
                |column: int|
                    if covers(above, column - x, row - y) {
                        blended(below[row][column], above[row - y][column - x])
                    } else {
                        below[row][column]
                    },
            ),
    )
}

/// `rows` with `color` at one place.
pub open spec fn with_pixel(rows: Seq<Seq<Color>>, x: int, y: int, color: Color) -> Seq<
    Seq<Color>,
> {
    rows.update(y, rows[y].update(x, color))
}

/// The pixels of each image of a list.
pub open spec fn frames_rows(frames: Seq<DynamicImage>) -> Seq<Seq<Seq<Color>>> {
    Seq::new(frames.len(), |i: int| image_rows(frames[i]))
}

/// `GenericImageView::dimensions`: the width and the height of the image.
/// Every row is as long as the image is wide.
#[verifier::external_body]
pub(crate) fn image_size(image: &DynamicImage) -> (size: (u32, u32))
    ensures
        has_size(image_rows(*image), size.0 as int, size.1 as int),
{
    image::GenericImageView::dimensions(image)
}

/// `DynamicImage::new_rgba8`: an image of the given size whose pixels are
/// all clear. The buffer has four bytes a pixel, and its length must fit.
#[verifier::external_body]
pub(crate) fn blank_image(width: u32, height: u32) -> (image: DynamicImage)
    requires
        4 * width * height <= usize::MAX,
    ensures
        image_rows(image) == filled(clear(), width as int, height as int),
        image_is_rgba8(image),
{
    DynamicImage::new_rgba8(width, height)
}

/// `DynamicImage::crop_imm` on a rectangle that lies within the image: a
/// new image of the rectangle's size with the pixels of the rectangle, in
/// the pixel format of the source.
#[verifier::external_body]
pub(crate) fn crop_image(image: &DynamicImage, x: u32, y: u32, width: u32, height: u32) -> (part:
    DynamicImage)
    requires
        holds_rect(image_rows(*image), x as int, y as int, width as int, height as int),
    ensures
        image_rows(part) == cropped(
            image_rows(*image),
            x as int,
            y as int,
            width as int,
            height as int,
        ),
        image_is_rgba8(part) == image_is_rgba8(*image),
{
    image.crop_imm(x, y, width, height)
}

/// `imageops::replace` with the corner of `top` at `(x, y)`: where `top`
/// reaches, `bottom` takes its pixels; the rest of `bottom` stays.
#[verifier::external_body]
pub(crate) fn replace_image(bottom: &mut DynamicImage, top: &DynamicImage, x: u32, y: u32)
    requires
        image_is_rgba8(*old(bottom)),
    ensures
        image_rows(*final(bottom)) == replaced(
            image_rows(*old(bottom)),
            image_rows(*top),
            x as int,
            y as int,
        ),
        image_is_rgba8(*final(bottom)),
{
    image::imageops::replace(bottom, top, i64::from(x), i64::from(y));
}

/// `imageops::overlay` with the corner of `top` at `(x, y)`: where `top`
/// reaches, its pixels are blended over those of `bottom`; the rest of
/// `bottom` stays. A pixel of `top` that is wholly transparent leaves the
/// pixel below as it is, and one that is wholly opaque takes its place.
#[verifier::external_body]
pub(crate) fn overlay_image(bottom: &mut DynamicImage, top: &DynamicImage, x: u32, y: u32)
    requires
        image_is_rgba8(*old(bottom)),
    ensures
        image_rows(*final(bottom)) == overlaid(
            image_rows(*old(bottom)),
            image_rows(*top),
            x as int,
            y as int,
        ),
        forall|column: int, row: int|
            0 <= row < image_rows(*old(bottom)).len() && 0 <= column < image_rows(
                *old(bottom),
            )[row].len() && covers(image_rows(*top), column - x, row - y) ==> #[trigger] image_rows(
                *final(bottom),
            )[row][column] == blended(
                image_rows(*old(bottom))[row][column],
                image_rows(*top)[row - y][column - x],
            ),
        forall|column: int, row: int|
            0 <= row < image_rows(*old(bottom)).len() && 0 <= column < image_rows(
                *old(bottom),
            )[row].len() && covers(image_rows(*top), column - x, row - y) && image_rows(
                *top,
            )[row - y][column - x].alpha == 0 ==> #[trigger] image_rows(
                *final(bottom),
            )[row][column] == image_rows(*old(bottom))[row][column],
        forall|column: int, row: int|
            0 <= row < image_rows(*old(bottom)).len() && 0 <= column < image_rows(
                *old(bottom),
            )[row].len() && covers(image_rows(*top), column - x, row - y) && image_rows(
                *top,
            )[row - y][column - x].alpha == 255 ==> #[trigger] image_rows(
                *final(bottom),
            )[row][column] == image_rows(*top)[row - y][column - x],
        image_is_rgba8(*final(bottom)),
{
    image::imageops::overlay(bottom, top, i64::from(x), i64::from(y));
}

/// `Clone::clone` of an image: the same pixels in the same format.
pub assume_specification[ <image::DynamicImage as Clone>::clone ](
    image: &image::DynamicImage,
) -> (copy: image::DynamicImage)
    ensures
        image_rows(copy) == image_rows(*image),
        image_is_rgba8(copy) == image_is_rgba8(*image),
;

/// A copy of an image.
pub fn copy_image(image: &DynamicImage) -> (copy: DynamicImage)
    ensures
        image_rows(copy) == image_rows(*image),
        image_is_rgba8(copy) == image_is_rgba8(*image),
{
    image.clone()
}

/// `GenericImageView::get_pixel` at a place within the image.
#[verifier::external_body]
pub(crate) fn pixel_at(image: &DynamicImage, x: u32, y: u32) -> (color: Color)
    requires
        y < image_rows(*image).len(),
        x < image_rows(*image)[y as int].len(),
    ensures
        color == image_rows(*image)[y as int][x as int],
{
    let pixel = image::GenericImageView::get_pixel(image, x, y);
    Color { red: pixel.0[0], green: pixel.0[1], blue: pixel.0[2], alpha: pixel.0[3] }
}

/// What `GenericImageView::get_pixel` reads back from a pixel of the image
/// after `GenericImage::put_pixel` has put the colour there: the colour as
/// the pixel format of the image keeps it.
pub uninterp spec fn format_color(image: DynamicImage, color: Color) -> Color;

/// The colour that a pixel of the image has after `color` was put there: the
/// colour itself in an image of four channels of eight bits, and what the
/// pixel format keeps of it in any other.
pub open spec fn kept_color(image: DynamicImage, color: Color) -> Color {
    if image_is_rgba8(image) {
        color
    } else {
        format_color(image, color)
    }
}

/// `GenericImage::put_pixel` at a place within the image: the pixel there
/// becomes the colour as the image keeps it, every other pixel stays, and
/// so does the pixel format.
#[verifier::external_body]
pub(crate) fn put_pixel(image: &mut DynamicImage, x: u32, y: u32, color: Color)
    requires
        y < image_rows(*old(image)).len(),
        x < image_rows(*old(image))[y as int].len(),
    ensures
        image_rows(*final(image)) == with_pixel(
            image_rows(*old(image)),
            x as int,
            y as int,
            kept_color(*old(image), color),
        ),
        image_is_rgba8(*final(image)) == image_is_rgba8(*old(image)),
        forall|any: Color| #[trigger]
            format_color(*final(image), any) == format_color(*old(image), any),
{
    let pixel = image::Rgba([color.red, color.green, color.blue, color.alpha]);
    image::GenericImage::put_pixel(image, x, y, pixel);
}

/// What `DynamicImage::to_rgba8` makes of the pixels of an image: the same
/// pixels where the image holds eight-bit RGBA already, a conversion of
/// them where it does not.
pub uninterp spec fn rgba8_rows(image: DynamicImage) -> Seq<Seq<Color>>;

/// The rows have as many pixels as `other`, row by row.
pub open spec fn same_shape(rows: Seq<Seq<Color>>, other: Seq<Seq<Color>>) -> bool {
    rows.len() == other.len() && forall|row: int|
        0 <= row < rows.len() ==> (#[trigger] rows[row]).len() == other[row].len()
}

/// `DynamicImage::to_rgba8`, wrapped up as an image again: an image of the
/// same size in eight-bit RGBA. An image of that format is copied as it is.
#[verifier::external_body]
pub(crate) fn to_rgba8(image: &DynamicImage) -> (converted: DynamicImage)
    ensures
        image_rows(converted) == rgba8_rows(*image),
        image_is_rgba8(converted),
        same_shape(image_rows(converted), image_rows(*image)),
        image_is_rgba8(*image) ==> image_rows(converted) == image_rows(*image),
{
    DynamicImage::ImageRgba8(image.to_rgba8())
}

/// `GenericImage::copy_from` with the corner of `top` at `(x, y)`, where
/// `top` fits into `bottom` there: `bottom` takes the pixels of `top`.
#[verifier::external_body]
pub(crate) fn copy_into(bottom: &mut DynamicImage, top: &DynamicImage, x: u32, y: u32)
    requires
        image_is_rgba8(*old(bottom)),
        image_rows(*top).len() + y <= image_rows(*old(bottom)).len(),
        forall|row: int|
            0 <= row < image_rows(*top).len() ==> (#[trigger] image_rows(*top)[row]).len() + x
                <= image_rows(*old(bottom))[row + y].len(),
    ensures
        image_rows(*final(bottom)) == replaced(
            image_rows(*old(bottom)),
            image_rows(*top),
            x as int,
            y as int,
        ),
        image_is_rgba8(*final(bottom)),
{
    let _ = image::GenericImage::copy_from(bottom, top, x, y);
}

/// Whether `PartialEq::eq` finds two images equal.
pub uninterp spec fn images_equal(first: DynamicImage, second: DynamicImage) -> bool;

/// `PartialEq::eq` of two images. Images that are equal have the same
/// pixels; images with the same pixels may still differ in their format.
#[verifier::external_body]
pub(crate) fn same_image(first: &DynamicImage, second: &DynamicImage) -> (same: bool)
    ensures
        same == images_equal(*first, *second),
        same ==> image_rows(*first) == image_rows(*second),
{
    first == second
}

/// The smaller of two numbers.
pub open spec fn least(first: int, second: int) -> int {
    if first <= second {
        first
    } else {
        second
    }
}

/// The width of the rows: that of the first row, nothing without rows.
pub open spec fn rows_width(rows: Seq<Seq<Color>>) -> int {
    if rows.len() > 0 {
        rows[0].len() as int
    } else {
        0
    }
}

/// The pixels of the part of the rectangle that lies within the rows: the
/// corner of the rectangle is moved onto the edge where it lies beyond, and
/// the rectangle is cut off at the edges.
pub open spec fn clamped(rows: Seq<Seq<Color>>, x: int, y: int, width: int, height: int) -> Seq<
    Seq<Color>,
> {
    let left = least(x, rows_width(rows));
    let top = least(y, rows.len() as int);
    cropped(
        rows,
        left,
        top,
        least(width, rows_width(rows) - left),
        least(height, rows.len() - top),
    )
}

/// The part of a rectangle that lies within the image, as a new image.
pub fn crop_clamped(image: &DynamicImage, x: u32, y: u32, width: u32, height: u32) -> (part:
    DynamicImage)
    ensures
        image_rows(part) == clamped(
            image_rows(*image),
            x as int,
            y as int,
            width as int,
            height as int,
        ),
        image_is_rgba8(part) == image_is_rgba8(*image),
{
    let size = image_size(image);
    let ghost rows = image_rows(*image);
    proof {
        if size.1 > 0 {
            assert(rows[0].len() == size.0);
        }
    }
    if size.1 == 0 {
        let part = crop_image(image, 0, 0, 0, 0);
        assert(image_rows(part) =~= clamped(rows, x as int, y as int, width as int, height as int));
        return part;
    }
    let left = if x <= size.0 {
        x
    } else {
        size.0
    };
    let top = if y <= size.1 {
        y
    } else {
        size.1
    };
    let wide = if width <= size.0 - left {
        width
    } else {
        size.0 - left
    };
    let high = if height <= size.1 - top {
        height
    } else {
        size.1 - top
    };
    crop_image(image, left, top, wide, high)
}

/// A copy of each image of a list.
pub fn copy_frames(frames: &Vec<DynamicImage>) -> (copies: Vec<DynamicImage>)
    ensures
        frames_rows(copies@) == frames_rows(frames@),
        copies.len() == frames.len(),
        forall|i: int|
            0 <= i < frames.len() ==> image_is_rgba8(#[trigger] copies[i]) == image_is_rgba8(
                frames[i],
            ),
{
    let mut copies: Vec<DynamicImage> = Vec::new();
    let mut index: usize = 0;
    while index < frames.len()
        invariant
            index <= frames.len(),
            copies.len() == index,
            forall|i: int| 0 <= i < index ==> image_rows(#[trigger] copies[i]) == image_rows(frames[i]),
            forall|i: int|
                0 <= i < index ==> image_is_rgba8(#[trigger] copies[i]) == image_is_rgba8(
                    frames[i],
                ),
        decreases frames.len() - index,
    {
        copies.push(copy_image(&frames[index]));
        index += 1;
    }
    assert(frames_rows(copies@) =~= frames_rows(frames@));
    copies
}

} // verus!
