use vstd::prelude::*;

use crate::generation::rect::{Border, BorderStyle};
use crate::generation::text::Alignment;
use crate::util::color::Color;

verus! {

/// Where the text stands on a map icon.
#[derive(Debug, Clone, Copy, Eq, PartialEq, Structural)]
pub enum Position {
    TopLeft,
    TopRight,
    BottomLeft,
    BottomRight,
    Center,
}

impl Default for Position {
    fn default() -> (position: Position)
        ensures
            position == Position::BottomRight,
    {
        Position::BottomRight
    }
}

/// Opaque white.
pub fn white() -> (color: Color)
    ensures
        color == (Color { red: 255, green: 255, blue: 255, alpha: 255 }),
{
    Color::new(255, 255, 255, 255)
}

/// Opaque black.
pub fn black() -> (color: Color)
    ensures
        color == (Color { red: 0, green: 0, blue: 0, alpha: 255 }),
{
    Color::new(0, 0, 0, 255)
}

pub fn bottom_right() -> (position: Position)
    ensures
        position == Position::BottomRight,
{
    Position::BottomRight
}

/// A solid black border.
pub fn default_outer_border() -> (border: Option<Border>)
    ensures
        border == Some(
            Border {
                style: BorderStyle::Solid,
                color: Color { red: 0, green: 0, blue: 0, alpha: 255 },
            },
        ),
{
    Some(Border { style: BorderStyle::Solid, color: Color::new(0, 0, 0, 255) })
}

pub fn default_alignment() -> (alignment: Alignment)
    ensures
        alignment == Alignment::Right,
{
    Alignment::Right
}

/// The icon that stands for a set of tiles on a map: a coloured square
/// with a short text and up to two borders.
#[derive(Debug, Clone, Eq, PartialEq)]
pub struct MapIcon {
    pub icon_state_name: String,
    pub base_color: Color,
    pub text: Option<String>,
    pub text_color: Color,
    pub text_position: Position,
    pub text_alignment: Alignment,
    pub inner_border: Option<Border>,
    pub outer_border: Option<Border>,
}

impl Default for MapIcon {
    fn default() -> (icon: MapIcon)
        ensures
            icon.icon_state_name@ == "map_icon"@,
            icon.base_color == (Color { red: 255, green: 255, blue: 255, alpha: 255 }),
            icon.text is Some && icon.text->Some_0@ == "DEF"@,
            icon.text_color == (Color { red: 0, green: 0, blue: 0, alpha: 255 }),
            icon.text_position == Position::BottomRight,
            icon.text_alignment == Alignment::Right,
            icon.inner_border is None,
            icon.outer_border == Some(
                Border {
                    style: BorderStyle::Solid,
                    color: Color { red: 0, green: 0, blue: 0, alpha: 255 },
                },
            ),
    {
        MapIcon {
            icon_state_name: "map_icon".to_owned(),
            base_color: Color::new(255, 255, 255, 255),
            text: Some("DEF".to_owned()),
            text_color: Color::new(0, 0, 0, 255),
            text_position: Position::BottomRight,
            text_alignment: Alignment::Right,
            inner_border: None,
            outer_border: Some(Border { style: BorderStyle::Solid, color: Color::new(0, 0, 0, 255) }),
        }
    }
}

} // verus!
