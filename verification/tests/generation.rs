use hypnagogic_core::config::blocks::generators::{
    black, bottom_right, default_alignment, default_outer_border, white, MapIcon, Position,
};
use hypnagogic_core::generation::error::GenerationError;
use hypnagogic_core::generation::icon::{check_block, generate_map_icon};
use hypnagogic_core::generation::rect::{draw_border, draw_rect, Border, BorderStyle};
use hypnagogic_core::generation::text::{Alignment, TextError};
use hypnagogic_core::util::color::Color;
use image::{DynamicImage, GenericImageView, Rgba, RgbaImage};

fn blank_image(width: u32, height: u32) -> DynamicImage {
    DynamicImage::new_rgba8(width, height)
}

fn pixel_at(image: &DynamicImage, x: u32, y: u32) -> Color {
    Color::from(image.get_pixel(x, y).0)
}

fn glyph_sheet() -> DynamicImage {
    DynamicImage::ImageRgba8(RgbaImage::from_pixel(48, 30, Rgba([1, 2, 3, 255])))
}

#[test]
fn a_rectangle_is_filled() {
    let mut image = blank_image(6, 5);
    let red = Color::new_rgb(255, 0, 0);
    draw_rect(&mut image, 1, 2, 3, 2, red);
    for y in 0..5 {
        for x in 0..6 {
            let inside = (1..4).contains(&x) && (2..4).contains(&y);
            assert_eq!(pixel_at(&image, x, y) == red, inside);
        }
    }
    draw_rect(&mut image, 0, 0, 0, 5, red);
    draw_rect(&mut image, 0, 0, 6, 0, red);
    assert_eq!(pixel_at(&image, 0, 0), Color::new(0, 0, 0, 0));
}

#[test]
fn a_solid_border_runs_along_the_edge() {
    let mut image = blank_image(6, 5);
    let blue = Color::new_rgb(0, 0, 255);
    draw_border(&mut image, 1, 1, 4, 3, Border { style: BorderStyle::Solid, color: blue });
    for y in 0..5 {
        for x in 0..6 {
            let on_edge = (1..5).contains(&x)
                && (1..4).contains(&y)
                && (x == 1 || x == 4 || y == 1 || y == 3);
            assert_eq!(pixel_at(&image, x, y) == blue, on_edge, "at {x}, {y}");
        }
    }
}

#[test]
fn a_dotted_border_has_every_other_pixel() {
    let mut image = blank_image(6, 6);
    let green = Color::new_rgb(0, 255, 0);
    draw_border(&mut image, 0, 0, 6, 6, Border { style: BorderStyle::Dotted, color: green });
    for y in 0..6u32 {
        for x in 0..6u32 {
            let dot = (y == 0 && x % 2 == 0)
                || (y == 5 && x % 2 == 1)
                || (x == 0 && y % 2 == 0)
                || (x == 5 && y % 2 == 1);
            assert_eq!(pixel_at(&image, x, y) == green, dot, "at {x}, {y}");
        }
    }
}

#[test]
fn the_defaults_of_a_map_icon() {
    assert_eq!(white(), Color::new(255, 255, 255, 255));
    assert_eq!(black(), Color::new(0, 0, 0, 255));
    assert_eq!(bottom_right(), Position::BottomRight);
    assert_eq!(default_alignment(), Alignment::Right);
    assert_eq!(
        default_outer_border(),
        Some(Border { style: BorderStyle::Solid, color: black() })
    );
    let icon = MapIcon::default();
    assert_eq!(icon.icon_state_name, "map_icon");
    assert_eq!(icon.text.as_deref(), Some("DEF"));
    assert_eq!(icon.base_color, white());
    assert_eq!(icon.text_color, black());
    assert_eq!(icon.text_position, Position::BottomRight);
    assert_eq!(icon.inner_border, None);
    assert_eq!(icon.outer_border, default_outer_border());
    assert_eq!(Position::default(), Position::BottomRight);
}

#[test]
fn a_map_icon_is_drawn() {
    let args = MapIcon::default();
    let icon = generate_map_icon(32, 32, &args, &glyph_sheet()).unwrap();
    assert_eq!(icon.dimensions(), (32, 32));
    // the outer border
    assert_eq!(pixel_at(&icon, 0, 0), black());
    assert_eq!(pixel_at(&icon, 31, 17), black());
    // the base
    assert_eq!(pixel_at(&icon, 1, 1), white());
    // `DEF` is eleven pixels wide and five high, three pixels off the corner
    assert_eq!(pixel_at(&icon, 18, 24), black());
    assert_eq!(pixel_at(&icon, 28, 28), black());
    assert_eq!(pixel_at(&icon, 17, 24), white());
    assert_eq!(pixel_at(&icon, 29, 28), white());
    assert_eq!(pixel_at(&icon, 18, 23), white());
}

#[test]
fn a_map_icon_without_text_has_its_borders() {
    let args = MapIcon {
        text: None,
        base_color: Color::new_rgb(10, 20, 30),
        inner_border: Some(Border { style: BorderStyle::Solid, color: Color::new_rgb(1, 1, 1) }),
        outer_border: None,
        ..MapIcon::default()
    };
    let icon = generate_map_icon(8, 10, &args, &glyph_sheet()).unwrap();
    assert_eq!(icon.dimensions(), (10, 8));
    assert_eq!(pixel_at(&icon, 0, 0), Color::new_rgb(10, 20, 30));
    assert_eq!(pixel_at(&icon, 1, 1), Color::new_rgb(1, 1, 1));
    assert_eq!(pixel_at(&icon, 8, 6), Color::new_rgb(1, 1, 1));
    assert_eq!(pixel_at(&icon, 2, 2), Color::new_rgb(10, 20, 30));
    assert_eq!(pixel_at(&icon, 9, 7), Color::new_rgb(10, 20, 30));
    let tiny = generate_map_icon(2, 2, &args, &glyph_sheet()).unwrap();
    assert_eq!(pixel_at(&tiny, 1, 1), Color::new_rgb(10, 20, 30));
}

#[test]
fn a_text_that_does_not_fit_is_refused() {
    let wide = MapIcon { text: Some("ABCDEFGH".to_string()), ..MapIcon::default() };
    match generate_map_icon(32, 32, &wide, &glyph_sheet()) {
        Err(GenerationError::TextTooLong(text, fitting)) => {
            assert_eq!(text, "ABCDEFGH");
            assert_eq!(fitting, 7);
        }
        other => panic!("unexpected: {:?}", other.map(|_| ())),
    }
    let high = MapIcon { text: Some("A B C D E".to_string()), ..MapIcon::default() };
    match generate_map_icon(32, 32, &high, &glyph_sheet()) {
        Err(GenerationError::TooManyLines(height, fitting)) => {
            assert_eq!(height, 29);
            assert_eq!(fitting, 4);
        }
        other => panic!("unexpected: {:?}", other.map(|_| ())),
    }
    let small = MapIcon::default();
    assert!(matches!(
        generate_map_icon(3, 3, &small, &glyph_sheet()),
        Err(GenerationError::TextTooLong(_, 0))
    ));
}

#[test]
fn a_text_that_cannot_be_drawn_is_refused() {
    let sheet = glyph_sheet();
    for text in ["", "a  b", " a", "a ", "caf\u{e9}", "a\tb"] {
        let args = MapIcon { text: Some(text.to_string()), ..MapIcon::default() };
        assert!(
            matches!(
                generate_map_icon(32, 32, &args, &sheet),
                Err(GenerationError::TextError(TextError::InvalidCharacters(_)))
            ),
            "{text:?}"
        );
    }
    let long = MapIcon { text: Some("a".repeat(101)), ..MapIcon::default() };
    assert!(matches!(
        generate_map_icon(32, 32, &long, &sheet),
        Err(GenerationError::TextError(TextError::TooLong(101)))
    ));
    assert!(check_block(&"a b c".chars().collect()).is_ok());
    assert!(check_block(&"a".repeat(100).chars().collect()).is_ok());
}

#[test]
fn the_text_is_placed_as_configured() {
    let sheet = glyph_sheet();
    for (position, x, y) in [
        (Position::TopLeft, 3, 3),
        (Position::TopRight, 32 - 3 - 3, 3),
        (Position::BottomLeft, 3, 40 - 5 - 3),
        (Position::BottomRight, 32 - 3 - 3, 40 - 5 - 3),
        (Position::Center, (32 - 3) / 2, (40 - 5) / 2),
    ] {
        let args = MapIcon {
            text: Some("A".to_string()),
            text_position: position,
            text_color: Color::new_rgb(200, 0, 0),
            outer_border: None,
            ..MapIcon::default()
        };
        let icon = generate_map_icon(40, 32, &args, &sheet).unwrap();
        assert_eq!(icon.dimensions(), (32, 40));
        for row in 0..40 {
            for column in 0..32 {
                let inside = (x..x + 3).contains(&column) && (y..y + 5).contains(&row);
                assert_eq!(
                    pixel_at(&icon, column, row) == Color::new_rgb(200, 0, 0),
                    inside,
                    "{position:?} at {column}, {row}"
                );
            }
        }
    }
}

#[test]
fn an_image_of_another_format_keeps_the_colour_its_own_way() {
    let mut image = DynamicImage::new_rgb8(4, 4);
    draw_rect(&mut image, 1, 1, 2, 2, Color::new(10, 20, 30, 128));
    assert_eq!(image.get_pixel(1, 1), Rgba([10, 20, 30, 255]));
    assert_eq!(image.get_pixel(2, 2), Rgba([10, 20, 30, 255]));
    assert_eq!(image.get_pixel(0, 0), Rgba([0, 0, 0, 255]));
    assert_eq!(image.get_pixel(3, 1), Rgba([0, 0, 0, 255]));
    assert!(image.as_rgb8().is_some());

    let mut grey = DynamicImage::new_luma8(3, 3);
    draw_border(
        &mut grey,
        0,
        0,
        3,
        3,
        Border { style: BorderStyle::Solid, color: Color::new_rgb(255, 255, 255) },
    );
    assert_eq!(grey.get_pixel(0, 0), Rgba([255, 255, 255, 255]));
    assert_eq!(grey.get_pixel(2, 1), Rgba([255, 255, 255, 255]));
    assert_eq!(grey.get_pixel(1, 1), Rgba([0, 0, 0, 255]));
    assert!(grey.as_luma8().is_some());
}
