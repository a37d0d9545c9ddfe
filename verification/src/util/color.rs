use vstd::prelude::*;

use image::DynamicImage;

use crate::util::raster::{
    has_size, image_is_rgba8, image_rows, image_size, pixel_at, put_pixel, rgba8_rows, to_rgba8,
};
use crate::util::text::{chars_of, push_char, text_from};

verus! {

/// A colour with its opacity, eight bits a channel.
#[derive(Debug, Clone, Copy, Eq, PartialEq, Structural, Hash)]
pub struct Color {
    pub red: u8,
    pub green: u8,
    pub blue: u8,
    pub alpha: u8,
}

/// The error that `u8::from_str_radix` gives.
#[verifier::external_type_specification]
#[verifier::external_body]
pub struct ExParseIntError(std::num::ParseIntError);

#[derive(Debug)]
pub enum ColorError {
    /// A colour that is not opaque was asked for as three bytes.
    HasAlpha,
    /// The text is no colour.
    HexConversionError(HexConversionError),
}

#[derive(Debug)]
pub enum HexConversionError {
    /// The text does not begin with `#`; it is handed back.
    MissingHash(String),
    /// The text after `#` is not 3, 4, 6 or 8 bytes long; it is handed back
    /// with its length.
    InvalidLength(String, usize),
    /// A pair of characters is no number in base sixteen.
    BadHex(std::num::ParseIntError),
}

/// The value of a digit in base sixteen, in either case.
pub open spec fn hex_digit(c: char) -> Option<u8> {
    if '0' <= c <= '9' {
        Some((c as u32 - 48) as u8)
    } else if 'a' <= c <= 'f' {
        Some((c as u32 - 87) as u8)
    } else if 'A' <= c <= 'F' {
        Some((c as u32 - 55) as u8)
    } else {
        None
    }
}

/// The number that a text of at most two characters holds in base sixteen:
/// one or two digits, or a plus sign and one digit.
pub open spec fn hex_pair(text: Seq<char>) -> Option<u8> {
    if text.len() == 1 {
        hex_digit(text[0])
    } else if text.len() == 2 {
        if text[0] == '+' {
            hex_digit(text[1])
        } else if hex_digit(text[0]) is Some && hex_digit(text[1]) is Some {
            Some((hex_digit(text[0])->Some_0 * 16 + hex_digit(text[1])->Some_0) as u8)
        } else {
            None
        }
    } else {
        None
    }
}

/// Each character twice.
pub open spec fn doubled(text: Seq<char>) -> Seq<char> {
    Seq::new(2 * text.len(), |i: int| text[i / 2])
}

/// The digits that stand for the channels: the short forms spell each
/// channel with one character, which counts twice.
pub open spec fn channel_digits(rest: Seq<char>, bytes: int) -> Seq<char> {
    if bytes == 3 || bytes == 4 {
        doubled(rest)
    } else {
        rest
    }
}

/// The `index`-th pair of the digits, as far as there are characters.
pub open spec fn pair_at(digits: Seq<char>, index: int) -> Seq<char> {
    if 2 * index + 2 <= digits.len() {
        digits.subrange(2 * index, 2 * index + 2)
    } else if 2 * index < digits.len() {
        digits.subrange(2 * index, digits.len() as int)
    } else {
        Seq::empty()
    }
}

/// The colour that the digits spell, where every pair that is needed is a
/// number: red, green and blue, and the opacity where more digits follow.
/// Without them the colour is opaque.
pub open spec fn color_of_digits(digits: Seq<char>) -> Option<Color> {
    let red = hex_pair(pair_at(digits, 0));
    let green = hex_pair(pair_at(digits, 1));
    let blue = hex_pair(pair_at(digits, 2));
    let alpha = if digits.len() > 6 {
        hex_pair(pair_at(digits, 3))
    } else {
        Some(255u8)
    };
    if red is Some && green is Some && blue is Some && alpha is Some {
        Some(Color { red: red->Some_0, green: green->Some_0, blue: blue->Some_0, alpha: alpha->Some_0 })
    } else {
        None
    }
}

/// The upper-case digit of a value below sixteen.
pub open spec fn upper_hex(value: u8) -> char {
    if value < 10 {
        ((48 + value) as u8) as char
    } else {
        ((55 + value) as u8) as char
    }
}

/// A channel as two upper-case digits in base sixteen.
pub open spec fn channel_text(value: u8) -> Seq<char> {
    seq![upper_hex(value / 16), upper_hex(value % 16)]
}

impl Color {
    /// The text of the colour: `#` and the four channels, two upper-case
    /// digits each.
    pub open spec fn hex_text(self) -> Seq<char> {
        seq!['#'] + channel_text(self.red) + channel_text(self.green) + channel_text(self.blue)
            + channel_text(self.alpha)
    }

    #[must_use]
    pub fn new(red: u8, green: u8, blue: u8, alpha: u8) -> (color: Color)
        ensures
            color == (Color { red, green, blue, alpha }),
    {
        Color { red, green, blue, alpha }
    }

    /// An opaque colour.
    #[must_use]
    pub fn new_rgb(red: u8, green: u8, blue: u8) -> (color: Color)
        ensures
            color == (Color { red, green, blue, alpha: 255 }),
    {
        Color { red, green, blue, alpha: 255 }
    }

    /// Reads a colour from `#` and 3, 4, 6 or 8 digits in base sixteen.
    /// In the short forms each digit stands for a channel and counts twice.
    ///
    /// The length that is tested is that of the text after `#` in bytes.
    /// Where a pair of characters is no number, or the characters run out
    /// because one of them took more than a byte, the error of the pair is
    /// handed back.
    pub fn from_hex_str(hex_str: &str) -> (parsed: Result<Color, HexConversionError>)
        ensures
            match parsed {
                Ok(color) => hex_str@.len() > 0 && hex_str@[0] == '#' && color_of_digits(
                    channel_digits(hex_str@.skip(1), tail_bytes(hex_str@)),
                ) == Some(color) && valid_hex_length(tail_bytes(hex_str@)),
                Err(HexConversionError::MissingHash(text)) => (hex_str@.len() == 0 || hex_str@[0]
                    != '#') && text@ == hex_str@,
                Err(HexConversionError::InvalidLength(text, length)) => hex_str@.len() > 0
                    && hex_str@[0] == '#' && !valid_hex_length(tail_bytes(hex_str@)) && text@
                    == hex_str@.skip(1) && length == tail_bytes(hex_str@),
                Err(HexConversionError::BadHex(_)) => hex_str@.len() > 0 && hex_str@[0] == '#'
                    && valid_hex_length(tail_bytes(hex_str@)) && color_of_digits(
                    channel_digits(hex_str@.skip(1), tail_bytes(hex_str@)),
                ) is None,
            },
    {
        let chars = chars_of(hex_str);
        if chars.len() == 0 || chars[0] != '#' {
            return Err(HexConversionError::MissingHash(hex_str.to_owned()));
        }
        let bytes = hex_str.as_bytes().len();
        proof {
            lemma_first_byte(hex_str@);
        }
        let length = bytes - 1;
        if !(length == 3 || length == 4 || length == 6 || length == 8) {
            return Err(HexConversionError::InvalidLength(text_from(&chars, 1), length));
        }
        let mut digits: Vec<char> = Vec::new();
        let mut index: usize = 1;
        if length == 3 || length == 4 {
            while index < chars.len()
                invariant
                    1 <= index <= chars.len(),
                    digits@ == doubled(chars@.skip(1).take(index - 1)),
                    digits.len() == 2 * (index - 1),
                decreases chars.len() - index,
            {
                proof {
                    let sofar = chars@.skip(1).take(index - 1);
                    let more = chars@.skip(1).take(index as int);
                    assert(more =~= sofar.push(chars[index as int]));
                    assert(doubled(more) =~= doubled(sofar).push(chars[index as int]).push(
                        chars[index as int],
                    ));
                }
                digits.push(chars[index]);
                digits.push(chars[index]);
                index += 1;
            }
            assert(chars@.skip(1).take(chars.len() - 1) =~= chars@.skip(1));
        } else {
            while index < chars.len()
                invariant
                    1 <= index <= chars.len(),
                    digits@ == chars@.skip(1).take(index - 1),
                decreases chars.len() - index,
            {
                proof {
                    assert(chars@.skip(1).take(index as int) =~= chars@.skip(1).take(
                        index - 1,
                    ).push(chars[index as int]));
                }
                digits.push(chars[index]);
                index += 1;
            }
            assert(chars@.skip(1).take(chars.len() - 1) =~= chars@.skip(1));
        }
        assert(digits@ == channel_digits(hex_str@.skip(1), length as int));
        let red = match channel(&digits, 0) {
            Ok(value) => value,
            Err(error) => {
                return Err(HexConversionError::BadHex(error));
            },
        };
        let green = match channel(&digits, 1) {
            Ok(value) => value,
            Err(error) => {
                return Err(HexConversionError::BadHex(error));
            },
        };
        let blue = match channel(&digits, 2) {
            Ok(value) => value,
            Err(error) => {
                return Err(HexConversionError::BadHex(error));
            },
        };
        let alpha = if digits.len() > 6 {
            match channel(&digits, 3) {
                Ok(value) => value,
                Err(error) => {
                    return Err(HexConversionError::BadHex(error));
                },
            }
        } else {
            255
        };
        Ok(Color { red, green, blue, alpha })
    }

    /// The colour as `#RRGGBBAA`, in upper-case digits.
    #[must_use]
    pub fn to_hex_str(&self) -> (text: String)
        ensures
            text@ == self.hex_text(),
    {
        let mut text = String::new();
        push_char(&mut text, '#');
        push_channel(&mut text, self.red);
        push_channel(&mut text, self.green);
        push_channel(&mut text, self.blue);
        push_channel(&mut text, self.alpha);
        assert(text@ =~= self.hex_text());
        text
    }

    /// The three colour channels of an opaque colour.
    pub fn to_rgb(self) -> (channels: Result<[u8; 3], ColorError>)
        ensures
            match channels {
                Ok(bytes) => self.alpha == 255 && bytes@ == seq![self.red, self.green, self.blue],
                Err(ColorError::HasAlpha) => self.alpha != 255,
                Err(_) => false,
            },
    {
        if self.alpha != 255 {
            return Err(ColorError::HasAlpha);
        }
        let bytes = [self.red, self.green, self.blue];
        assert(bytes@ =~= seq![self.red, self.green, self.blue]);
        Ok(bytes)
    }
}

/// The bytes that a text takes in UTF-8 after its first byte.
pub open spec fn tail_bytes(text: Seq<char>) -> int {
    vstd::utf8::encode_utf8(text).len() - 1
}

/// The rows with `color` in place of every pixel that is not fully
/// transparent.
pub open spec fn recolored(rows: Seq<Seq<Color>>, color: Color) -> Seq<Seq<Color>> {
    Seq::new(
        rows.len(),
        |row: int|
            Seq::new(
                rows[row].len(),
                |column: int|
                    if rows[row][column].alpha != 0 {
                        color
                    } else {
                        rows[row][column]
                    },
            ),
    )
}

/// The rows, recoloured in every row before `stop_row` and in that row in
/// every column before `stop_column`.
pub open spec fn recolored_before(
    rows: Seq<Seq<Color>>,
    color: Color,
    stop_row: int,
    stop_column: int,
) -> Seq<Seq<Color>> {
    Seq::new(
        rows.len(),
        |row: int|
            Seq::new(
                rows[row].len(),
                |column: int|
                    if rows[row][column].alpha != 0 && (row < stop_row || (row == stop_row && column
                        < stop_column)) {
                        color
                    } else {
                        rows[row][column]
                    },
            ),
    )
}

/// Turns the image into eight-bit RGBA and gives every pixel that is not
/// fully transparent the colour.
pub fn fill_image_color(image: &mut DynamicImage, color: Color)
    ensures
        image_rows(*final(image)) == recolored(rgba8_rows(*old(image)), color),
        image_is_rgba8(*old(image)) ==> image_rows(*final(image)) == recolored(
            image_rows(*old(image)),
            color,
        ),
        image_is_rgba8(*final(image)),
{
    let mut buffer = to_rgba8(image);
    let ghost first = image_rows(buffer);
    let size = image_size(&buffer);
    let mut row: u32 = 0;
    assert(recolored_before(first, color, 0, 0) =~~= first);
    while row < size.1
        invariant
            row <= size.1,
            has_size(first, size.0 as int, size.1 as int),
            image_is_rgba8(buffer),
            image_rows(buffer) == recolored_before(first, color, row as int, 0),
        decreases size.1 - row,
    {
        let mut column: u32 = 0;
        while column < size.0
            invariant
                column <= size.0,
                row < size.1,
                has_size(first, size.0 as int, size.1 as int),
                image_is_rgba8(buffer),
                image_rows(buffer) == recolored_before(first, color, row as int, column as int),
            decreases size.0 - column,
        {
            let ghost before = image_rows(buffer);
            assert(first[row as int].len() == size.0);
            let pixel = pixel_at(&buffer, column, row);
            if pixel.alpha != 0 {
                put_pixel(&mut buffer, column, row, color);
            }
            assert(image_rows(buffer) =~~= recolored_before(
                first,
                color,
                row as int,
                column + 1,
            ));
            column += 1;
        }
        assert(recolored_before(first, color, row as int, size.0 as int) =~~= recolored_before(
            first,
            color,
            row + 1,
            0,
        ));
        row += 1;
    }
    assert(recolored_before(first, color, size.1 as int, 0) =~~= recolored(first, color));
    *image = buffer;
}

/// The lengths in bytes that a colour text may have after its `#`.
pub open spec fn valid_hex_length(bytes: int) -> bool {
    bytes == 3 || bytes == 4 || bytes == 6 || bytes == 8
}

impl Default for Color {
    fn default() -> (color: Color)
        ensures
            color == (Color { red: 0, green: 0, blue: 0, alpha: 0 }),
    {
        Color { red: 0, green: 0, blue: 0, alpha: 0 }
    }
}

impl From<[u8; 4]> for Color {
    fn from(channels: [u8; 4]) -> (color: Color) {
        Color { red: channels[0], green: channels[1], blue: channels[2], alpha: channels[3] }
    }
}

impl vstd::std_specs::convert::FromSpecImpl<[u8; 4]> for Color {
    open spec fn obeys_from_spec() -> bool {
        true
    }

    open spec fn from_spec(channels: [u8; 4]) -> Color {
        Color { red: channels[0], green: channels[1], blue: channels[2], alpha: channels[3] }
    }
}

impl From<[u8; 3]> for Color {
    fn from(channels: [u8; 3]) -> (color: Color) {
        Color { red: channels[0], green: channels[1], blue: channels[2], alpha: 255 }
    }
}

impl vstd::std_specs::convert::FromSpecImpl<[u8; 3]> for Color {
    open spec fn obeys_from_spec() -> bool {
        true
    }

    open spec fn from_spec(channels: [u8; 3]) -> Color {
        Color { red: channels[0], green: channels[1], blue: channels[2], alpha: 255 }
    }
}

impl From<(u8, u8, u8, u8)> for Color {
    fn from(channels: (u8, u8, u8, u8)) -> (color: Color) {
        Color { red: channels.0, green: channels.1, blue: channels.2, alpha: channels.3 }
    }
}

impl vstd::std_specs::convert::FromSpecImpl<(u8, u8, u8, u8)> for Color {
    open spec fn obeys_from_spec() -> bool {
        true
    }

    open spec fn from_spec(channels: (u8, u8, u8, u8)) -> Color {
        Color { red: channels.0, green: channels.1, blue: channels.2, alpha: channels.3 }
    }
}

impl From<(u8, u8, u8)> for Color {
    fn from(channels: (u8, u8, u8)) -> (color: Color) {
        Color { red: channels.0, green: channels.1, blue: channels.2, alpha: 255 }
    }
}

impl vstd::std_specs::convert::FromSpecImpl<(u8, u8, u8)> for Color {
    open spec fn obeys_from_spec() -> bool {
        true
    }

    open spec fn from_spec(channels: (u8, u8, u8)) -> Color {
        Color { red: channels.0, green: channels.1, blue: channels.2, alpha: 255 }
    }
}

/// `u8::from_str_radix` in base sixteen, on a text of at most two
/// characters. The number is an optional plus sign and then digits only, at
/// least one; anything else is an error.
#[verifier::external_body]
fn parse_hex(text: &str) -> (parsed: Result<u8, std::num::ParseIntError>)
    requires
        text@.len() <= 2,
    ensures
        match parsed {
            Ok(value) => hex_pair(text@) == Some(value),
            Err(_) => hex_pair(text@) is None,
        },
{
    u8::from_str_radix(text, 16)
}

/// The `index`-th channel of the digits.
fn channel(digits: &Vec<char>, index: usize) -> (parsed: Result<u8, std::num::ParseIntError>)
    requires
        index <= 3,
    ensures
        match parsed {
            Ok(value) => hex_pair(pair_at(digits@, index as int)) == Some(value),
            Err(_) => hex_pair(pair_at(digits@, index as int)) is None,
        },
{
    let mut pair = String::new();
    let first = 2 * index;
    if first < digits.len() {
        push_char(&mut pair, digits[first]);
        if first + 1 < digits.len() {
            push_char(&mut pair, digits[first + 1]);
        }
    }
    assert(pair@ =~= pair_at(digits@, index as int));
    parse_hex(pair.as_str())
}

/// The upper-case digit of a value below sixteen.
fn upper_hex_digit(value: u8) -> (c: char)
    requires
        value < 16,
    ensures
        c == upper_hex(value),
{
    if value < 10 {
        (48 + value) as char
    } else {
        (55 + value) as char
    }
}

fn push_channel(text: &mut String, value: u8)
    ensures
        final(text)@ == old(text)@ + channel_text(value),
{
    let ghost before = text@;
    push_char(text, upper_hex_digit(value / 16));
    push_char(text, upper_hex_digit(value % 16));
    assert(text@ =~= before + channel_text(value));
}

/// A text that is not empty takes at least a byte.
proof fn lemma_first_byte(text: Seq<char>)
    requires
        text.len() > 0,
    ensures
        vstd::utf8::encode_utf8(text).len() >= 1,
{
    let bytes = vstd::utf8::encode_utf8(text);
    assert(bytes == vstd::utf8::encode_scalar(text[0] as u32) + vstd::utf8::encode_utf8(
        text.drop_first(),
    ));
    assert(vstd::utf8::encode_scalar(text[0] as u32).len() >= 1);
}

} // verus!
