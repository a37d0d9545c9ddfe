use vstd::prelude::*;

use crate::generation::text::TextError;

verus! {

/// What can go wrong while a map icon is drawn.
#[derive(Debug)]
pub enum GenerationError {
    /// The text could not be drawn.
    TextError(TextError),
    /// The text is wider than the icon; the number is about how many
    /// characters fit.
    TextTooLong(String, u32),
    /// The text has more lines than fit: the height it takes, and how many
    /// lines fit.
    TooManyLines(u32, u32),
}

} // verus!
