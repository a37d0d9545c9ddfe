use image::DynamicImage;
use vstd::prelude::*;

use crate::util::color::Color;
use crate::util::raster::{
    blank_image, clear, copy_into, crop_image, cropped, filled, has_size, holds_rect,
    image_is_rgba8, image_rows, image_size, replaced,
};
use crate::util::text::chars_of;

verus! {

pub const CHARACTER_WIDTH: u32 = 3;

pub const CHARACTER_HEIGHT: u32 = 5;

pub const MAX_LENGTH: usize = 100;

/// How the lines of a text block are set against each other.
#[derive(Clone, Copy, Debug, Eq, PartialEq, Structural)]
pub enum Alignment {
    Left,
    Center,
    Right,
}

#[derive(Debug)]
pub enum TextError {
    /// The text is longer than `MAX_LENGTH`.
    TooLong(u32),
    /// The text holds characters that the sheet has no glyph for.
    InvalidCharacters(Vec<char>),
}

/// The printable characters of ASCII: the space and the 94 characters with
/// a glyph.
pub open spec fn is_printable(c: char) -> bool {
    ' ' <= c <= '~'
}

/// The width of a glyph that is narrower than the usual three pixels.
pub open spec fn narrow_width(c: char) -> Option<u32> {
    if c == ';' || c == ',' || c == 'l' || c == 'j' || c == '(' || c == ')' || c == '[' || c == ']'
        || c == '`' || c == '\'' {
        Some(2u32)
    } else if c == '!' || c == '.' || c == 'i' {
        Some(1u32)
    } else {
        None
    }
}

/// The width of a narrow glyph, where the character has one.
pub fn is_char_narrow(c: char) -> (width: Option<u32>)
    ensures
        width == narrow_width(c),
{
    if c == ';' || c == ',' || c == 'l' || c == 'j' || c == '(' || c == ')' || c == '[' || c == ']'
        || c == '`' || c == '\'' {
        Some(2)
    } else if c == '!' || c == '.' || c == 'i' {
        Some(1)
    } else {
        None
    }
}

/// Whether the character is among those of the slice.
#[must_use]
pub fn const_contains(slice: &[char], c: char) -> (found: bool)
    ensures
        found == slice@.contains(c),
{
    let mut i: usize = 0;
    while i < slice.len()
        invariant
            i <= slice.len(),
            forall|j: int| 0 <= j < i ==> slice@[j] != c,
        decreases slice.len() - i,
    {
        if slice[i] == c {
            return true;
        }
        i += 1;
    }
    false
}

/// The column and the row of a character's glyph on the sheet, which holds
/// the printable characters after the space sixteen to a row, beginning
/// with `!`. The space has no glyph, nor has any other character.
#[must_use]
pub fn lookup_coords(c: char) -> (place: Option<(u32, u32)>)
    ensures
        match place {
            Some((x, y)) => is_printable(c) && c != ' ' && x == (c as u32 - 33) % 16 && y == (c as u32
                - 33) / 16,
            None => !is_printable(c) || c == ' ',
        },
{
    if !(' ' <= c && c <= '~') || c == ' ' {
        return None;
    }
    let grid_width: u32 = 16;
    let starting_char: u32 = 33;
    let char_index = c as u32 - starting_char;
    let x = char_index % grid_width;
    let y = char_index / grid_width;
    Some((x, y))
}

/// The sheet is large enough to hold the 94 glyphs, sixteen to a row.
pub open spec fn is_glyph_sheet(sheet: Seq<Seq<Color>>) -> bool {
    holds_rect(sheet, 0, 0, 48, 30)
}

/// The pixels of the glyph of a character on the sheet.
pub open spec fn glyph_rows(sheet: Seq<Seq<Color>>, c: char) -> Seq<Seq<Color>> {
    cropped(sheet, ((c as u32 - 33) % 16) * 3, ((c as u32 - 33) / 16) * 5, 3, 5)
}

/// How far a character moves the pen: a space by two pixels, any other by
/// the width of its glyph and a pixel between the glyphs.
pub open spec fn advance(c: char) -> int {
    if c == ' ' {
        2
    } else {
        match narrow_width(c) {
            Some(width) => width + 1,
            None => CHARACTER_WIDTH + 1,
        }
    }
}

/// Where the pen stands after the first `count` characters.
pub open spec fn pen(text: Seq<char>, count: int) -> int
    decreases count,
{
    if count <= 0 {
        0
    } else {
        pen(text, count - 1) + advance(text[count - 1])
    }
}

/// A line that can be drawn: at least one character, no more than
/// `MAX_LENGTH`, all of them printable.
pub open spec fn line_ok(text: Seq<char>) -> bool {
    0 < text.len() <= MAX_LENGTH && forall|i: int|
        0 <= i < text.len() ==> is_printable(#[trigger] text[i])
}

/// The canvas of a line with its first `count` characters drawn: each
/// glyph where the pen stands; a space draws nothing.
pub open spec fn line_drawn(text: Seq<char>, sheet: Seq<Seq<Color>>, count: int) -> Seq<Seq<Color>>
    decreases count,
{
    if count <= 0 {
        filled(clear(), 4 * text.len() - 1, CHARACTER_HEIGHT as int)
    } else {
        let before = line_drawn(text, sheet, count - 1);
        if text[count - 1] == ' ' {
            before
        } else {
            replaced(before, glyph_rows(sheet, text[count - 1]), pen(text, count - 1), 0)
        }
    }
}

/// The pixels of a line of text: its canvas up to the last glyph, without
/// the pixel that follows it.
pub open spec fn line_rows(text: Seq<char>, sheet: Seq<Seq<Color>>) -> Seq<Seq<Color>> {
    cropped(
        line_drawn(text, sheet, text.len() as int),
        0,
        0,
        pen(text, text.len() as int) - 1,
        CHARACTER_HEIGHT as int,
    )
}

/// The words of a text: what stands between its spaces.
pub open spec fn split_words(text: Seq<char>) -> Seq<Seq<char>>
    decreases text.len(),
{
    if text.len() == 0 {
        seq![Seq::<char>::empty()]
    } else {
        let before = split_words(text.drop_last());
        if text.last() == ' ' {
            before.push(Seq::<char>::empty())
        } else {
            before.drop_last().push(before.last().push(text.last()))
        }
    }
}

/// The width of the widest of the first `count` lines.
pub open spec fn widest(lines: Seq<Seq<char>>, count: int) -> int
    decreases count,
{
    if count <= 0 {
        0
    } else {
        let width = pen(lines[count - 1], lines[count - 1].len() as int) - 1;
        if widest(lines, count - 1) >= width {
            widest(lines, count - 1)
        } else {
            width
        }
    }
}

/// Where a line of the given width begins in a block of the given width.
pub open spec fn line_left(alignment: Alignment, block: int, line: int) -> int {
    match alignment {
        Alignment::Left => 0,
        Alignment::Center => (block - line) / 2,
        Alignment::Right => block - line,
    }
}

/// A text that can be drawn as a block: no more than `MAX_LENGTH`
/// characters, and every word a line that can be drawn.
pub open spec fn block_ok(text: Seq<char>) -> bool {
    text.len() <= MAX_LENGTH && forall|i: int|
        0 <= i < split_words(text).len() ==> line_ok(#[trigger] split_words(text)[i])
}

/// The canvas of a block with its first `count` lines drawn, one below the
/// other with a pixel between them.
pub open spec fn block_drawn(
    lines: Seq<Seq<char>>,
    alignment: Alignment,
    sheet: Seq<Seq<Color>>,
    count: int,
) -> Seq<Seq<Color>>
    decreases count,
{
    if count <= 0 {
        filled(clear(), widest(lines, lines.len() as int), 6 * lines.len() - 1)
    } else {
        replaced(
            block_drawn(lines, alignment, sheet, count - 1),
            line_rows(lines[count - 1], sheet),
            line_left(
                alignment,
                widest(lines, lines.len() as int),
                pen(lines[count - 1], lines[count - 1].len() as int) - 1,
            ),
            6 * (count - 1),
        )
    }
}

/// The pixels of a block of text.
pub open spec fn block_rows(text: Seq<char>, alignment: Alignment, sheet: Seq<Seq<Color>>) -> Seq<
    Seq<Color>,
> {
    block_drawn(split_words(text), alignment, sheet, split_words(text).len() as int)
}

/// The pen moves by two to four pixels a character.
pub proof fn lemma_pen_bounds(text: Seq<char>, count: int)
    requires
        0 <= count,
    ensures
        2 * count <= pen(text, count) <= 4 * count,
    decreases count,
{
    if count > 0 {
        lemma_pen_bounds(text, count - 1);
    }
}

/// The canvas of a line keeps its size while the glyphs are drawn.
pub proof fn lemma_line_drawn_size(text: Seq<char>, sheet: Seq<Seq<Color>>, count: int)
    requires
        text.len() > 0,
    ensures
        has_size(line_drawn(text, sheet, count), 4 * text.len() - 1, CHARACTER_HEIGHT as int),
    decreases count,
{
    if count > 0 {
        lemma_line_drawn_size(text, sheet, count - 1);
    }
}

/// The canvas of a block keeps its size while the lines are drawn.
pub proof fn lemma_block_drawn_size(
    lines: Seq<Seq<char>>,
    alignment: Alignment,
    sheet: Seq<Seq<Color>>,
    count: int,
)
    requires
        lines.len() > 0,
    ensures
        has_size(
            block_drawn(lines, alignment, sheet, count),
            widest(lines, lines.len() as int),
            6 * lines.len() - 1,
        ),
    decreases count,
{
    if count > 0 {
        lemma_block_drawn_size(lines, alignment, sheet, count - 1);
    } else {
        lemma_widest_bounds(lines, lines.len() as int, lines.len() as int);
    }
}

/// No line among the first `count` is wider than the widest, and the
/// widest is no wider than four pixels a character of the longest line.
pub proof fn lemma_widest_bounds(lines: Seq<Seq<char>>, count: int, index: int)
    requires
        0 <= count <= lines.len(),
    ensures
        0 <= widest(lines, count),
        0 <= index < count ==> pen(lines[index], lines[index].len() as int) - 1 <= widest(
            lines,
            count,
        ),
        (forall|i: int| 0 <= i < lines.len() ==> (#[trigger] lines[i]).len() <= MAX_LENGTH)
            ==> widest(lines, count) <= 4 * MAX_LENGTH,
    decreases count,
{
    if count > 0 {
        lemma_widest_bounds(lines, count - 1, index);
        lemma_pen_bounds(lines[count - 1], lines[count - 1].len() as int);
    }
}

/// The glyph of a character, cut from the sheet.
#[must_use]
pub fn get_char_crop(c: char, glyphs: &DynamicImage) -> (crop: Option<DynamicImage>)
    requires
        is_glyph_sheet(image_rows(*glyphs)),
    ensures
        match crop {
            Some(glyph) => is_printable(c) && c != ' ' && image_rows(glyph) == glyph_rows(
                image_rows(*glyphs),
                c,
            ),
            None => !is_printable(c) || c == ' ',
        },
{
    match lookup_coords(c) {
        Some((x, y)) => {
            let x = x * CHARACTER_WIDTH;
            let y = y * CHARACTER_HEIGHT;
            assert(holds_rect(image_rows(*glyphs), x as int, y as int, 3, 5));
            Some(crop_image(glyphs, x, y, CHARACTER_WIDTH, CHARACTER_HEIGHT))
        },
        None => None,
    }
}

/// Draws the characters of a line.
fn draw_line(text: &Vec<char>, glyphs: &DynamicImage) -> (line: DynamicImage)
    requires
        line_ok(text@),
        is_glyph_sheet(image_rows(*glyphs)),
    ensures
        image_rows(line) == line_rows(text@, image_rows(*glyphs)),
        image_is_rgba8(line),
{
    let ghost sheet = image_rows(*glyphs);
    let num_chars = text.len() as u32;
    let num_spaces = num_chars - 1;
    let width = CHARACTER_WIDTH * num_chars + num_spaces;
    let height = CHARACTER_HEIGHT;
    let mut image = blank_image(width, height);
    let mut pos: u32 = 0;
    let mut index: usize = 0;
    while index < text.len()
        invariant
            index <= text.len(),
            line_ok(text@),
            is_glyph_sheet(sheet),
            sheet == image_rows(*glyphs),
            pos == pen(text@, index as int),
            image_is_rgba8(image),
            image_rows(image) == line_drawn(text@, sheet, index as int),
        decreases text.len() - index,
    {
        proof {
            lemma_pen_bounds(text@, index as int);
            lemma_line_drawn_size(text@, sheet, index as int);
        }
        let c = text[index];
        if c == ' ' {
            pos += 2;
        } else {
            let x = pos;
            let step = match is_char_narrow(c) {
                Some(narrow) => narrow,
                None => CHARACTER_WIDTH,
            };
            pos += step + 1;
            let char_image = get_char_crop(c, glyphs).unwrap();
            copy_into(&mut image, &char_image, x, 0);
        }
        index += 1;
    }
    proof {
        lemma_pen_bounds(text@, text.len() as int);
        lemma_line_drawn_size(text@, sheet, text.len() as int);
    }
    crop_image(&image, 0, 0, pos - 1, CHARACTER_HEIGHT)
}

/// Draws a line of text with the glyphs of the sheet: a canvas of a glyph
/// and a pixel for each character, each glyph where the pen stands, cut
/// off behind the last glyph.
#[must_use]
pub fn generate_text_line(text_to_gen: &str, glyphs: &DynamicImage) -> (line: DynamicImage)
    requires
        line_ok(text_to_gen@),
        is_glyph_sheet(image_rows(*glyphs)),
    ensures
        image_rows(line) == line_rows(text_to_gen@, image_rows(*glyphs)),
        image_is_rgba8(line),
{
    let chars = chars_of(text_to_gen);
    draw_line(&chars, glyphs)
}

/// The words of a text.
pub fn words_of(text: &Vec<char>) -> (words: Vec<Vec<char>>)
    ensures
        words.len() == split_words(text@).len(),
        forall|i: int| 0 <= i < words.len() ==> (#[trigger] words[i])@ == split_words(text@)[i],
{
    let mut words: Vec<Vec<char>> = Vec::new();
    let mut current: Vec<char> = Vec::new();
    let mut index: usize = 0;
    assert(text@.take(0) =~= Seq::<char>::empty());
    while index < text.len()
        invariant
            index <= text.len(),
            words.len() + 1 == split_words(text@.take(index as int)).len(),
            forall|i: int|
                0 <= i < words.len() ==> (#[trigger] words[i])@ == split_words(
                    text@.take(index as int),
                )[i],
            current@ == split_words(text@.take(index as int)).last(),
        decreases text.len() - index,
    {
        let ghost before = split_words(text@.take(index as int));
        proof {
            assert(text@.take(index + 1).drop_last() =~= text@.take(index as int));
            assert(text@.take(index + 1).last() == text[index as int]);
        }
        let c = text[index];
        if c == ' ' {
            let ghost held = words@;
            words.push(current);
            current = Vec::new();
            proof {
                assert forall|i: int| 0 <= i < words.len() implies (#[trigger] words[i])@
                    == split_words(text@.take(index + 1))[i] by {
                    if i < held.len() {
                        assert(words[i] == held[i]);
                    }
                }
            }
        } else {
            current.push(c);
        }
        index += 1;
    }
    assert(text@.take(text.len() as int) =~= text@);
    let ghost held = words@;
    words.push(current);
    proof {
        assert forall|i: int| 0 <= i < words.len() implies (#[trigger] words[i])@ == split_words(
            text@,
        )[i] by {
            if i < held.len() {
                assert(words[i] == held[i]);
            }
        }
    }
    words
}

/// Draws a block of text: the words of the text as lines, one below the
/// other with a pixel between them, on a canvas as wide as the widest line.
pub fn generate_text_block(text_to_gen: &str, alignment: Alignment, glyphs: &DynamicImage) -> (block:
    DynamicImage)
    requires
        block_ok(text_to_gen@),
        is_glyph_sheet(image_rows(*glyphs)),
    ensures
        image_rows(block) == block_rows(text_to_gen@, alignment, image_rows(*glyphs)),
        image_is_rgba8(block),
{
    let ghost sheet = image_rows(*glyphs);
    let ghost lines = split_words(text_to_gen@);
    let chars = chars_of(text_to_gen);
    let split = words_of(&chars);
    proof {
        lemma_words_count(text_to_gen@);
    }
    let mut images: Vec<DynamicImage> = Vec::new();
    let mut longest_line: u32 = 0;
    let mut index: usize = 0;
    while index < split.len()
        invariant
            index <= split.len(),
            split.len() == lines.len(),
            forall|i: int| 0 <= i < split.len() ==> (#[trigger] split[i])@ == lines[i],
            forall|i: int| 0 <= i < lines.len() ==> line_ok(#[trigger] lines[i]),
            is_glyph_sheet(image_rows(*glyphs)),
            sheet == image_rows(*glyphs),
            images.len() == index,
            forall|i: int|
                0 <= i < index ==> image_rows(#[trigger] images[i]) == line_rows(lines[i], sheet),
            longest_line == widest(lines, index as int),
        decreases split.len() - index,
    {
        let line = draw_line(&split[index], glyphs);
        let size = image_size(&line);
        proof {
            lemma_pen_bounds(lines[index as int], lines[index as int].len() as int);
            assert(image_rows(line)[0].len() == size.0);
        }
        if size.0 > longest_line {
            longest_line = size.0;
        }
        let ghost before = images@;
        images.push(line);
        proof {
            assert forall|i: int| 0 <= i < index + 1 implies image_rows(#[trigger] images[i])
                == line_rows(lines[i], sheet) by {
                if i < index {
                    assert(images[i] == before[i]);
                }
            }
        }
        index += 1;
    }
    proof {
        lemma_widest_bounds(lines, lines.len() as int, 0);
        assert(forall|i: int| 0 <= i < lines.len() ==> (#[trigger] lines[i]).len() <= MAX_LENGTH) by {
            assert forall|i: int| 0 <= i < lines.len() implies (#[trigger] lines[i]).len()
                <= MAX_LENGTH by {
                assert(line_ok(lines[i]));
            }
        }
        assert(longest_line <= 400);
        assert(lines.len() <= 101);
    }
    let count = split.len() as u32;
    let height = count * CHARACTER_HEIGHT + (count - 1);
    assert(4 * longest_line * height <= 4 * 400 * 606) by (nonlinear_arith)
        requires
            0 <= longest_line <= 400,
            0 <= height <= 606,
    ;
    let mut image = blank_image(longest_line, height);
    let mut index: usize = 0;
    while index < images.len()
        invariant
            index <= images.len(),
            images.len() == lines.len(),
            0 < lines.len() <= MAX_LENGTH + 1,
            forall|i: int| 0 <= i < lines.len() ==> line_ok(#[trigger] lines[i]),
            forall|i: int|
                0 <= i < images.len() ==> image_rows(#[trigger] images[i]) == line_rows(
                    lines[i],
                    sheet,
                ),
            longest_line == widest(lines, lines.len() as int),
            image_is_rgba8(image),
            image_rows(image) == block_drawn(lines, alignment, sheet, index as int),
        decreases images.len() - index,
    {
        let line = &images[index];
        let size = image_size(line);
        proof {
            lemma_pen_bounds(lines[index as int], lines[index as int].len() as int);
            lemma_widest_bounds(lines, lines.len() as int, index as int);
            lemma_block_drawn_size(lines, alignment, sheet, index as int);
            assert(image_rows(*line) == line_rows(lines[index as int], sheet));
            assert(image_rows(*line).len() == 5);
            assert(image_rows(*line)[0].len() == size.0);
            assert(image_rows(image).len() == 6 * lines.len() - 1);
        }
        let x = match alignment {
            Alignment::Left => 0,
            Alignment::Center => (longest_line - size.0) / 2,
            Alignment::Right => longest_line - size.0,
        };
        let step = CHARACTER_HEIGHT + 1;
        assert(index * step == 6 * index && index * step <= 606) by (nonlinear_arith)
            requires
                0 <= index < 101,
                step == 6,
        ;
        let y = index as u32 * step;
        copy_into(&mut image, line, x, y);
        index += 1;
    }
    image
}

/// A text has a word more than it has spaces: at least one, and no more
/// than a word for each character and one.
pub proof fn lemma_words_count(text: Seq<char>)
    ensures
        0 < split_words(text).len() <= text.len() + 1,
    decreases text.len(),
{
    if text.len() > 0 {
        lemma_words_count(text.drop_last());
    }
}

} // verus!
