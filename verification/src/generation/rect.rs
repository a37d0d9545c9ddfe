use image::DynamicImage;
use vstd::prelude::*;

use crate::util::color::Color;
use crate::util::raster::{
    format_color, holds_rect, image_is_rgba8, image_rows, image_size, kept_color, put_pixel,
    with_pixel,
};

verus! {

#[derive(Debug, Clone, Copy, Eq, PartialEq, Structural)]
pub enum BorderStyle {
    Solid,
    Dotted,
}

#[derive(Debug, Clone, Copy, Eq, PartialEq, Structural)]
pub struct Border {
    pub style: BorderStyle,
    pub color: Color,
}

/// The place lies in the rectangle.
pub open spec fn in_rect(column: int, row: int, x: int, y: int, width: int, height: int) -> bool {
    x <= column < x + width && y <= row < y + height
}

/// The rows with every pixel of the rectangle that comes before
/// `(stop_column, stop_row)`, column by column and from the top within a
/// column, in the given colour.
pub open spec fn painted_before(
    rows: Seq<Seq<Color>>,
    x: int,
    y: int,
    width: int,
    height: int,
    color: Color,
    stop_column: int,
    stop_row: int,
) -> Seq<Seq<Color>> {
    Seq::new(
        rows.len(),
        |row: int|
            Seq::new(
                rows[row].len(),
                |column: int|
                    if in_rect(column, row, x, y, width, height) && (column < stop_column || (column
                        == stop_column && row < stop_row)) {
                        color
                    } else {
                        rows[row][column]
                    },
            ),
    )
}

/// The rows with the rectangle in the given colour.
pub open spec fn painted(
    rows: Seq<Seq<Color>>,
    x: int,
    y: int,
    width: int,
    height: int,
    color: Color,
) -> Seq<Seq<Color>> {
    Seq::new(
        rows.len(),
        |row: int|
            Seq::new(
                rows[row].len(),
                |column: int|
                    if in_rect(column, row, x, y, width, height) {
                        color
                    } else {
                        rows[row][column]
                    },
            ),
    )
}

/// Whether a dotted border around the rectangle has a dot at the place:
/// on the top edge in even columns, on the bottom edge in odd ones, on the
/// left edge in even rows and on the right edge in odd ones.
pub open spec fn is_dot(column: int, row: int, x: int, y: int, width: int, height: int) -> bool {
    ||| row == y && x <= column < x + width && column % 2 == 0
    ||| row == y + height - 1 && x <= column < x + width && column % 2 == 1
    ||| column == x && y <= row < y + height && row % 2 == 0
    ||| column == x + width - 1 && y <= row < y + height && row % 2 == 1
}

/// The dots of the two horizontal edges in the columns before `stop`.
pub open spec fn is_dot_across(column: int, row: int, x: int, y: int, width: int, height: int, stop: int) -> bool {
    ||| row == y && x <= column < stop && column < x + width && column % 2 == 0
    ||| row == y + height - 1 && x <= column < stop && column < x + width && column % 2 == 1
}

/// The dots of the two horizontal edges, and those of the two vertical
/// edges in the rows before `stop`.
pub open spec fn is_dot_down(column: int, row: int, x: int, y: int, width: int, height: int, stop: int) -> bool {
    ||| is_dot_across(column, row, x, y, width, height, x + width)
    ||| column == x && y <= row < stop && row < y + height && row % 2 == 0
    ||| column == x + width - 1 && y <= row < stop && row < y + height && row % 2 == 1
}

/// The rows with the colour wherever `dots` says so.
pub open spec fn dotted(rows: Seq<Seq<Color>>, color: Color, dots: spec_fn(int, int) -> bool) -> Seq<
    Seq<Color>,
> {
    Seq::new(
        rows.len(),
        |row: int|
            Seq::new(
                rows[row].len(),
                |column: int|
                    if dots(column, row) {
                        color
                    } else {
                        rows[row][column]
                    },
            ),
    )
}

/// The rows with a border around the rectangle: a solid border is the top
/// edge, the bottom edge, the left edge and the right edge, one pixel
/// thick; a dotted border has a dot at every other pixel of them.
pub open spec fn bordered(
    rows: Seq<Seq<Color>>,
    x: int,
    y: int,
    width: int,
    height: int,
    border: Border,
) -> Seq<Seq<Color>> {
    match border.style {
        BorderStyle::Solid => painted(
            painted(
                painted(painted(rows, x, y, width, 1, border.color), x, y + height - 1, width, 1, border.color),
                x,
                y,
                1,
                height,
                border.color,
            ),
            x + width - 1,
            y,
            1,
            height,
            border.color,
        ),
        BorderStyle::Dotted => dotted(
            rows,
            border.color,
            |column: int, row: int| is_dot(column, row, x, y, width, height),
        ),
    }
}

/// Fills a rectangle of the image with a colour. In an image of another
/// pixel format than four channels of eight bits the pixels take the colour
/// as that format keeps it.
pub fn draw_rect(image: &mut DynamicImage, x: u32, y: u32, width: u32, height: u32, color: Color)
    requires
        holds_rect(image_rows(*old(image)), x as int, y as int, width as int, height as int),
    ensures
        image_rows(*final(image)) == painted(
            image_rows(*old(image)),
            x as int,
            y as int,
            width as int,
            height as int,
            kept_color(*old(image), color),
        ),
        image_is_rgba8(*final(image)) == image_is_rgba8(*old(image)),
        forall|any: Color| #[trigger]
            format_color(*final(image), any) == format_color(*old(image), any),
{
    let ghost first = image_rows(*image);
    let ghost entered = *image;
    let ghost shade = kept_color(*image, color);
    if height == 0 {
        assert(painted(first, x as int, y as int, width as int, height as int, shade) =~~= first);
        return ;
    }
    let size = image_size(image);
    assert(first[y as int].len() >= x + width);
    let mut column = x;
    assert(painted_before(
        first,
        x as int,
        y as int,
        width as int,
        height as int,
        shade,
        x as int,
        y as int,
    ) =~~= first);
    while column < x + width
        invariant
            x <= column <= x + width,
            height > 0,
            x + width <= u32::MAX,
            y + height <= u32::MAX,
            holds_rect(first, x as int, y as int, width as int, height as int),
            image_is_rgba8(*image) == image_is_rgba8(entered),
            forall|any: Color| #[trigger] format_color(*image, any) == format_color(entered, any),
            shade == kept_color(entered, color),
            image_rows(*image) == painted_before(
                first,
                x as int,
                y as int,
                width as int,
                height as int,
                shade,
                column as int,
                y as int,
            ),
        decreases x + width - column,
    {
        let mut row = y;
        while row < y + height
            invariant
                y <= row <= y + height <= u32::MAX,
                x <= column < x + width,
                holds_rect(first, x as int, y as int, width as int, height as int),
                image_is_rgba8(*image) == image_is_rgba8(entered),
            forall|any: Color| #[trigger] format_color(*image, any) == format_color(entered, any),
            shade == kept_color(entered, color),
                image_rows(*image) == painted_before(
                    first,
                    x as int,
                    y as int,
                    width as int,
                    height as int,
                    shade,
                    column as int,
                    row as int,
                ),
            decreases y + height - row,
        {
            let ghost before = image_rows(*image);
            assert(first[row as int].len() >= x + width);
            put_pixel(image, column, row, color);
            assert(with_pixel(before, column as int, row as int, shade) =~~= painted_before(
                first,
                x as int,
                y as int,
                width as int,
                height as int,
                shade,
                column as int,
                row + 1,
            ));
            row += 1;
        }
        assert(painted_before(
            first,
            x as int,
            y as int,
            width as int,
            height as int,
            shade,
            column as int,
            y + height,
        ) =~~= painted_before(
            first,
            x as int,
            y as int,
            width as int,
            height as int,
            shade,
            column + 1,
            y as int,
        ));
        column += 1;
    }
    assert(painted_before(
        first,
        x as int,
        y as int,
        width as int,
        height as int,
        shade,
        x + width,
        y as int,
    ) =~~= painted(first, x as int, y as int, width as int, height as int, shade));
}

/// Painting keeps the number of pixels of every row.
pub proof fn lemma_painted_shape(
    rows: Seq<Seq<Color>>,
    x: int,
    y: int,
    width: int,
    height: int,
    color: Color,
    left: int,
    top: int,
    wide: int,
    high: int,
)
    requires
        holds_rect(rows, left, top, wide, high),
    ensures
        holds_rect(painted(rows, x, y, width, height, color), left, top, wide, high),
{
}

/// Draws a border, one pixel thick, around a rectangle of the image. In an
/// image of another pixel format than four channels of eight bits the
/// pixels take the colour as that format keeps it.
pub fn draw_border(
    image: &mut DynamicImage,
    x: u32,
    y: u32,
    width: u32,
    height: u32,
    border: Border,
)
    requires
        width > 0,
        height > 0,
        holds_rect(image_rows(*old(image)), x as int, y as int, width as int, height as int),
    ensures
        image_rows(*final(image)) == bordered(
            image_rows(*old(image)),
            x as int,
            y as int,
            width as int,
            height as int,
            (Border { style: border.style, color: kept_color(*old(image), border.color) }),
        ),
        image_is_rgba8(*final(image)) == image_is_rgba8(*old(image)),
        forall|any: Color| #[trigger]
            format_color(*final(image), any) == format_color(*old(image), any),
{
    let ghost first = image_rows(*image);
    let ghost entered = *image;
    let ghost shade = kept_color(*image, border.color);
    let size = image_size(image);
    assert(first[y as int].len() >= x + width);
    match border.style {
        BorderStyle::Solid => {
            draw_rect(image, x, y, width, 1, border.color);
            let ghost second = image_rows(*image);
            proof {
                lemma_painted_shape(
                    first,
                    x as int,
                    y as int,
                    width as int,
                    1,
                    shade,
                    x as int,
                    y as int,
                    width as int,
                    height as int,
                );
            }
            draw_rect(image, x, y + height - 1, width, 1, border.color);
            let ghost third = image_rows(*image);
            proof {
                lemma_painted_shape(
                    second,
                    x as int,
                    y + height - 1,
                    width as int,
                    1,
                    shade,
                    x as int,
                    y as int,
                    width as int,
                    height as int,
                );
            }
            draw_rect(image, x, y, 1, height, border.color);
            proof {
                lemma_painted_shape(
                    third,
                    x as int,
                    y as int,
                    1,
                    height as int,
                    shade,
                    x as int,
                    y as int,
                    width as int,
                    height as int,
                );
            }
            draw_rect(image, x + width - 1, y, 1, height, border.color);
        },
        BorderStyle::Dotted => {
            let mut column = x;
            assert(dotted(
                first,
                shade,
                |at: int, row: int|
                    is_dot_across(at, row, x as int, y as int, width as int, height as int, x as int),
            ) =~~= first);
            while column < x + width
                invariant
                    x <= column <= x + width <= u32::MAX,
                    y + height <= u32::MAX,
                    height > 0,
                    holds_rect(first, x as int, y as int, width as int, height as int),
                    image_is_rgba8(*image) == image_is_rgba8(entered),
                    forall|any: Color| #[trigger] format_color(*image, any) == format_color(entered, any),
                    shade == kept_color(entered, border.color),
                    image_rows(*image) == dotted(
                        first,
                        shade,
                        |at: int, row: int| is_dot_across(at, row, x as int, y as int, width as int, height as int, column as int),
                    ),
                decreases x + width - column,
            {
                let ghost before = image_rows(*image);
                assert(first[y as int].len() >= x + width);
                assert(first[y + height - 1].len() >= x + width);
                if column % 2 == 0 {
                    put_pixel(image, column, y, border.color);
                }
                if column % 2 == 1 {
                    put_pixel(image, column, y + height - 1, border.color);
                }
                assert(image_rows(*image) =~~= dotted(
                    first,
                    shade,
                    |at: int, row: int| is_dot_across(at, row, x as int, y as int, width as int, height as int, column + 1),
                ));
                column += 1;
            }
            assert(image_rows(*image) =~~= dotted(
                first,
                shade,
                |at: int, row: int| is_dot_down(at, row, x as int, y as int, width as int, height as int, y as int),
            ));
            let mut row = y;
            while row < y + height
                invariant
                    y <= row <= y + height <= u32::MAX,
                    x + width <= u32::MAX,
                    width > 0,
                    holds_rect(first, x as int, y as int, width as int, height as int),
                    image_is_rgba8(*image) == image_is_rgba8(entered),
                    forall|any: Color| #[trigger] format_color(*image, any) == format_color(entered, any),
                    shade == kept_color(entered, border.color),
                    image_rows(*image) == dotted(
                        first,
                        shade,
                        |at: int, line: int| is_dot_down(at, line, x as int, y as int, width as int, height as int, row as int),
                    ),
                decreases y + height - row,
            {
                assert(first[row as int].len() >= x + width);
                if row % 2 == 0 {
                    put_pixel(image, x, row, border.color);
                }
                if row % 2 == 1 {
                    put_pixel(image, x + width - 1, row, border.color);
                }
                assert(image_rows(*image) =~~= dotted(
                    first,
                    shade,
                    |at: int, line: int| is_dot_down(at, line, x as int, y as int, width as int, height as int, row + 1),
                ));
                row += 1;
            }
            assert(image_rows(*image) =~~= dotted(
                first,
                shade,
                |column: int, row: int| is_dot(column, row, x as int, y as int, width as int, height as int),
            ));
        },
    }
}

} // verus!
