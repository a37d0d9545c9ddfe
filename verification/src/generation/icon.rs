use image::DynamicImage;
use vstd::prelude::*;

use crate::config::blocks::generators::{MapIcon, Position};
use crate::generation::error::GenerationError;
use crate::generation::rect::{bordered, draw_border, draw_rect, painted, Border};
use crate::generation::text::{
    block_ok, block_rows, generate_text_block, is_glyph_sheet, is_printable, lemma_block_drawn_size,
    lemma_pen_bounds,
    lemma_widest_bounds, lemma_words_count, line_ok, split_words, widest, words_of, TextError,
    MAX_LENGTH,
};
use crate::util::color::{fill_image_color, recolored, Color};
use crate::util::raster::{
    blank_image, clear, filled, has_size, image_is_rgba8, image_rows, image_size, overlaid,
    overlay_image,
};
use crate::util::text::chars_of;

verus! {

/// The width of a text drawn as a block.
pub open spec fn block_width(text: Seq<char>) -> int {
    widest(split_words(text), split_words(text).len() as int)
}

/// The height of a text drawn as a block: five pixels a line and a pixel
/// between the lines.
pub open spec fn block_height(text: Seq<char>) -> int {
    6 * split_words(text).len() - 1
}

/// `length - margin`, or nothing where the margin is larger.
pub open spec fn less(length: int, margin: int) -> int {
    if length >= margin {
        length - margin
    } else {
        0
    }
}

/// Where the text is laid down on an icon: three pixels off the edges of
/// its corner, or in the middle.
pub open spec fn text_place(
    position: Position,
    width: int,
    height: int,
    text_width: int,
    text_height: int,
) -> (int, int) {
    match position {
        Position::TopLeft => (3, 3),
        Position::TopRight => (width - text_width - 3, 3),
        Position::BottomLeft => (3, height - text_height - 3),
        Position::BottomRight => (width - text_width - 3, height - text_height - 3),
        Position::Center => ((width - text_width) / 2, (height - text_height) / 2),
    }
}

/// A border as wide and as high as given, where it has an extent.
pub open spec fn with_border(
    rows: Seq<Seq<Color>>,
    x: int,
    y: int,
    width: int,
    height: int,
    border: Option<Border>,
) -> Seq<Seq<Color>> {
    match border {
        Some(border) => if width > 0 && height > 0 {
            bordered(rows, x, y, width, height, border)
        } else {
            rows
        },
        None => rows,
    }
}

/// The square of the base colour with the text blended over it.
pub open spec fn with_text(
    base: Seq<Seq<Color>>,
    width: int,
    height: int,
    args: MapIcon,
    sheet: Seq<Seq<Color>>,
) -> Seq<Seq<Color>> {
    match args.text {
        Some(text) => {
            let place = text_place(
                args.text_position,
                width,
                height,
                block_width(text@),
                block_height(text@),
            );
            overlaid(
                base,
                recolored(block_rows(text@, args.text_alignment, sheet), args.text_color),
                place.0,
                place.1,
            )
        },
        None => base,
    }
}

/// The pixels of a map icon: a square of the base colour, the text in its
/// colour, the outer border along the edge and the inner border a pixel
/// within.
pub open spec fn map_icon_rows(height: int, width: int, args: MapIcon, sheet: Seq<Seq<Color>>) -> Seq<
    Seq<Color>,
> {
    let base = painted(filled(clear(), width, height), 0, 0, width, height, args.base_color);
    let lettered = with_text(base, width, height, args, sheet);
    let outer = with_border(lettered, 0, 0, width, height, args.outer_border);
    with_border(outer, 1, 1, less(width, 2), less(height, 2), args.inner_border)
}

/// The text of a map icon can be drawn and leaves four pixels of the icon
/// free in its width and in its height.
pub open spec fn map_icon_fits(height: int, width: int, args: MapIcon) -> bool {
    args.text is Some ==> block_ok(args.text->Some_0@) && block_width(args.text->Some_0@) <= less(
        width,
        4,
    ) && block_height(args.text->Some_0@) <= less(height, 4)
}

/// `error` is what is reported of a map icon that cannot be drawn: the
/// text is too long or cannot be drawn, or its block is too wide, or too
/// high, in this order.
pub open spec fn map_icon_fault(height: int, width: int, args: MapIcon, error: GenerationError) -> bool {
    match error {
        GenerationError::TextError(TextError::TooLong(_)) => args.text is Some
            && args.text->Some_0@.len() > MAX_LENGTH,
        GenerationError::TextError(TextError::InvalidCharacters(_)) => args.text is Some
            && args.text->Some_0@.len() <= MAX_LENGTH && !block_ok(args.text->Some_0@),
        GenerationError::TextTooLong(text, fitting) => args.text is Some && block_ok(
            args.text->Some_0@,
        ) && block_width(args.text->Some_0@) > less(width, 4) && text@ == args.text->Some_0@
            && fitting == less(width, 4) / 4,
        GenerationError::TooManyLines(lines, fitting) => args.text is Some && block_ok(
            args.text->Some_0@,
        ) && block_width(args.text->Some_0@) <= less(width, 4) && block_height(args.text->Some_0@)
            > less(height, 4) && lines == block_height(args.text->Some_0@) && fitting == less(
            height,
            4,
        ) / 6,
    }
}

/// Whether a text can be drawn as a block.
pub fn check_block(text: &Vec<char>) -> (checked: Result<(), TextError>)
    ensures
        match checked {
            Ok(_) => block_ok(text@),
            Err(TextError::TooLong(_)) => text.len() > MAX_LENGTH,
            Err(TextError::InvalidCharacters(_)) => text.len() <= MAX_LENGTH && !block_ok(text@),
        },
{
    if text.len() > MAX_LENGTH {
        let length: u32 = if text.len() > 0xffff_ffff {
            0xffff_ffff
        } else {
            text.len() as u32
        };
        return Err(TextError::TooLong(length));
    }
    let words = words_of(text);
    let ghost lines = split_words(text@);
    let mut index: usize = 0;
    while index < words.len()
        invariant
            index <= words.len(),
            words.len() == lines.len(),
            lines == split_words(text@),
            text.len() <= MAX_LENGTH,
            forall|i: int| 0 <= i < words.len() ==> (#[trigger] words[i])@ == lines[i],
            forall|i: int| 0 <= i < index ==> line_ok(#[trigger] lines[i]),
        decreases words.len() - index,
    {
        let word = &words[index];
        if word.len() == 0 || word.len() > MAX_LENGTH {
            assert(!line_ok(lines[index as int]));
            let mut bad: Vec<char> = Vec::new();
            bad.push(' ');
            return Err(TextError::InvalidCharacters(bad));
        }
        let mut place: usize = 0;
        while place < word.len()
            invariant
                place <= word.len(),
                word@ == lines[index as int],
                0 <= index < lines.len(),
                lines == split_words(text@),
                text.len() <= MAX_LENGTH,
                forall|i: int| 0 <= i < place ==> is_printable(#[trigger] word[i]),
            decreases word.len() - place,
        {
            let c = word[place];
            if !(' ' <= c && c <= '~') {
                assert(!is_printable(lines[index as int][place as int]));
                assert(!line_ok(lines[index as int]));
                let mut bad: Vec<char> = Vec::new();
                bad.push(c);
                return Err(TextError::InvalidCharacters(bad));
            }
            place += 1;
        }
        index += 1;
    }
    Ok(())
}

/// Draws a map icon of the given height and width.
///
/// The text must be drawable as a block, and the block must leave four
/// pixels of the icon free in its width and in its height. A border is
/// drawn where it has an extent.
pub fn generate_map_icon(height: u32, width: u32, args: &MapIcon, glyphs: &DynamicImage) -> (icon:
    Result<DynamicImage, GenerationError>)
    requires
        4 * width * height <= usize::MAX,
        is_glyph_sheet(image_rows(*glyphs)),
    ensures
        match icon {
            Ok(image) => image_rows(image) == map_icon_rows(
                height as int,
                width as int,
                *args,
                image_rows(*glyphs),
            ) && image_is_rgba8(image) && map_icon_fits(height as int, width as int, *args),
            Err(error) => map_icon_fault(height as int, width as int, *args, error),
        },
{
    let ghost sheet = image_rows(*glyphs);
    let mut image = blank_image(width, height);
    draw_rect(&mut image, 0, 0, width, height, args.base_color);
    match &args.text {
        Some(text) => {
            let chars = chars_of(text.as_str());
            match check_block(&chars) {
                Ok(_) => {},
                Err(error) => {
                    return Err(GenerationError::TextError(error));
                },
            }
            let mut text_image = generate_text_block(text.as_str(), args.text_alignment, glyphs);
            let size = image_size(&text_image);
            proof {
                let lines = split_words(text@);
                lemma_words_count(text@);
                lemma_block_drawn_size(lines, args.text_alignment, sheet, lines.len() as int);
                lemma_widest_bounds(lines, lines.len() as int, 0);
                lemma_pen_bounds(lines[0], lines[0].len() as int);
                assert(line_ok(lines[0]));
                assert(image_rows(text_image)[0].len() == size.0);
                assert(size.0 >= 1);
            }
            let text_width = size.0;
            let text_height = size.1;
            let free_width = if width >= 4 {
                width - 4
            } else {
                0
            };
            let free_height = if height >= 4 {
                height - 4
            } else {
                0
            };
            if text_width > free_width {
                return Err(GenerationError::TextTooLong(text.clone(), free_width / 4));
            }
            if text_height > free_height {
                return Err(GenerationError::TooManyLines(text_height, free_height / 6));
            }
            fill_image_color(&mut text_image, args.text_color);
            let (text_x, text_y) = match args.text_position {
                Position::TopLeft => (3, 3),
                Position::TopRight => (width - text_width - 3, 3),
                Position::BottomLeft => (3, height - text_height - 3),
                Position::BottomRight => (width - text_width - 3, height - text_height - 3),
                Position::Center => ((width - text_width) / 2, (height - text_height) / 2),
            };
            overlay_image(&mut image, &text_image, text_x, text_y);
        },
        None => {},
    }
    let ghost lettered = image_rows(image);
    match args.outer_border {
        Some(border) => {
            if width > 0 && height > 0 {
                draw_border(&mut image, 0, 0, width, height, border);
            }
        },
        None => {},
    }
    match args.inner_border {
        Some(border) => {
            if width > 2 && height > 2 {
                let ghost outer = image_rows(image);
                assert(has_size(outer, width as int, height as int));
                draw_border(&mut image, 1, 1, width - 2, height - 2, border);
            }
        },
        None => {},
    }
    Ok(image)
}

} // verus!
