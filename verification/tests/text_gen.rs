use hypnagogic_core::generation::text::{
    const_contains, generate_text_block, generate_text_line, get_char_crop, is_char_narrow,
    lookup_coords,
    Alignment, CHARACTER_HEIGHT, CHARACTER_WIDTH,
};
use image::{DynamicImage, GenericImageView, Rgba, RgbaImage};

/// A sheet of glyphs in which the glyph of a character is filled with a
/// colour that tells the character.
fn glyph_sheet() -> DynamicImage {
    let mut sheet = RgbaImage::new(48, 30);
    for y in 0..30u32 {
        for x in 0..48u32 {
            let index = (y / 5) * 16 + x / 3;
            sheet.put_pixel(x, y, Rgba([index as u8 + 33, (x % 3) as u8, (y % 5) as u8, 255]));
        }
    }
    DynamicImage::ImageRgba8(sheet)
}

#[test]
fn char_lookup() {
    let char = '!';
    let (x, y) = lookup_coords(char).unwrap();
    assert_eq!(x, 0);
    assert_eq!(y, 0);
    let char = ' ';
    let failed = lookup_coords(char);
    assert_eq!(failed, None);

    let char = 'a';
    let (x, y) = lookup_coords(char).unwrap();
    assert_eq!(x, 0);
    assert_eq!(y, 4);
}

#[test]
fn char_lookup_covers_the_printable_characters() {
    assert_eq!(lookup_coords('~'), Some((13, 5)));
    assert_eq!(lookup_coords('0'), Some((15, 0)));
    assert_eq!(lookup_coords('1'), Some((0, 1)));
    assert_eq!(lookup_coords('\u{7f}'), None);
    assert_eq!(lookup_coords('\n'), None);
    assert_eq!(lookup_coords('\u{e9}'), None);
}

#[test]
fn char_crop() {
    let char = '!';
    let image = get_char_crop(char, &glyph_sheet()).unwrap();
    assert_eq!(image.dimensions(), (CHARACTER_WIDTH, CHARACTER_HEIGHT));
}

#[test]
fn char_crop_takes_the_glyph_of_the_character() {
    let sheet = glyph_sheet();
    let image = get_char_crop('a', &sheet).unwrap();
    for y in 0..5 {
        for x in 0..3 {
            assert_eq!(image.get_pixel(x, y), Rgba([b'a', x as u8, y as u8, 255]));
        }
    }
    assert!(get_char_crop(' ', &sheet).is_none());
}

#[test]
fn narrow_characters() {
    assert_eq!(is_char_narrow('i'), Some(1));
    assert_eq!(is_char_narrow('!'), Some(1));
    assert_eq!(is_char_narrow('l'), Some(2));
    assert_eq!(is_char_narrow('\''), Some(2));
    assert_eq!(is_char_narrow('a'), None);
}

#[test]
fn write_out_test_line() {
    let text = "Hello, world!";
    let image = generate_text_line(text, &glyph_sheet());
    // H e l l o , _ w o r l d !
    let width = 4 + 4 + 3 + 3 + 4 + 3 + 2 + 4 + 4 + 4 + 3 + 4 + 2 - 1;
    assert_eq!(image.dimensions(), (width, 5));
}

#[test]
fn a_line_places_each_glyph_at_the_pen() {
    let image = generate_text_line("ia", &glyph_sheet());
    assert_eq!(image.dimensions(), (5, 5));
    // the glyph of `i` is laid down three pixels wide, and that of `a`
    // over its last pixel
    assert_eq!(image.get_pixel(0, 0), Rgba([b'i', 0, 0, 255]));
    assert_eq!(image.get_pixel(1, 2), Rgba([b'i', 1, 2, 255]));
    assert_eq!(image.get_pixel(2, 0), Rgba([b'a', 0, 0, 255]));
    assert_eq!(image.get_pixel(4, 4), Rgba([b'a', 2, 4, 255]));
}

#[test]
fn write_out_test_block() {
    let text = "Hello, world! This is a test of the text generator. I hope it works!";
    let image = generate_text_block(text, Alignment::Center, &glyph_sheet());
    // fourteen words, the widest is `generator.`
    assert_eq!(image.height(), 14 * 5 + 13);
    assert_eq!(image.width(), 9 * 4 + 2 - 1);
}

#[test]
fn a_block_aligns_its_lines() {
    let sheet = glyph_sheet();
    let left = generate_text_block("ab c", Alignment::Left, &sheet);
    let right = generate_text_block("ab c", Alignment::Right, &sheet);
    let center = generate_text_block("ab c", Alignment::Center, &sheet);
    assert_eq!(left.dimensions(), (7, 11));
    assert_eq!(left.get_pixel(0, 6), Rgba([b'c', 0, 0, 255]));
    assert_eq!(right.get_pixel(4, 6), Rgba([b'c', 0, 0, 255]));
    assert_eq!(right.get_pixel(0, 6), Rgba([0, 0, 0, 0]));
    assert_eq!(center.get_pixel(2, 6), Rgba([b'c', 0, 0, 255]));
    assert_eq!(left.get_pixel(0, 5), Rgba([0, 0, 0, 0]));
}

#[test]
fn a_character_is_found_in_a_slice() {
    let letters = ['a', 'b', 'c'];
    assert!(const_contains(&letters, 'a'));
    assert!(const_contains(&letters, 'c'));
    assert!(!const_contains(&letters, 'd'));
    assert!(!const_contains(&[], 'a'));
}
